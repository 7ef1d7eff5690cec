use vstd::prelude::*;
use vstd::string::*;
use std::io::Write;
use crate::paths::{join, joined};
use crate::session::AppState;

verus! {

/// Whether the `session` cookie, if any, names a live session.
pub open spec fn session_live(state: Map<Seq<char>, i64>, cookie: Option<Seq<char>>) -> bool {
    cookie matches Some(c) && state.contains_key(c)
}

/// Whether a request that carries `cookie` as its session cookie belongs to a live
/// session. A missing cookie belongs to none.
pub fn check_session(state: &AppState, cookie: &Option<String>) -> (r: bool)
    ensures
        r == session_live(
            state@,
            match cookie {
                Some(c) => Some(c@),
                None => None,
            },
        ),
{
    match cookie {
        Some(c) => state.contains(c),
        None => false,
    }
}

/// `s` ends with `suffix`.
pub open spec fn ends_with_text(s: Seq<char>, suffix: Seq<char>) -> bool {
    suffix.len() <= s.len() && s.subrange(s.len() - suffix.len(), s.len() as int) == suffix
}

/// Whether `s` ends with `suffix`.
pub fn ends_with(s: &str, suffix: &str) -> (r: bool)
    ensures
        r == ends_with_text(s@, suffix@),
{
    let n = s.unicode_len();
    let m = suffix.unicode_len();
    if m > n {
        return false;
    }
    let mut i: usize = 0;
    while i < m
        invariant
            n == s@.len(),
            m == suffix@.len(),
            m <= n,
            0 <= i <= m,
            forall|j: int| 0 <= j < i ==> s@[n - m + j] == suffix@[j],
        decreases m - i,
    {
        if s.get_char(n - m + i) != suffix.get_char(i) {
            proof {
                assert(s@.subrange(n - m, n as int)[i as int] != suffix@[i as int]);
            }
            return false;
        }
        i = i + 1;
    }
    proof {
        assert(s@.subrange(n - m, n as int) =~= suffix@);
    }
    true
}

/// The ending that marks a file in a session directory as a compressed output.
pub open spec fn output_marker() -> Seq<char> {
    "-compressed.gif"@
}

/// A compressed output found in a session directory: its file name and its path.
pub struct OutputFile {
    pub name: String,
    pub path: String,
}

/// Why a session directory could not be listed.
#[derive(Debug, Clone, Copy, PartialEq, Eq, Structural)]
pub enum ListingError {
    NotFound,
    Other,
}

/// What a download request gets.
pub enum DownloadPlan {
    /// No session cookie, or no live session by that name.
    BadRequest,
    /// No session directory, or no compressed output in it.
    NotFound,
    /// The session directory could not be read.
    InternalError,
    /// Exactly one output: its bytes are served as they are.
    Single(OutputFile),
    /// Two or more outputs: they are bundled in one archive, in this order.
    Archive(Vec<OutputFile>),
}

/// The names in a directory listing that mark compressed outputs, in listing order.
pub open spec fn output_names(listing: Seq<Seq<char>>) -> Seq<Seq<char>> {
    listing.filter(|n: Seq<char>| ends_with_text(n, output_marker()))
}

/// The views of a list of strings.
pub open spec fn names_of(v: Seq<String>) -> Seq<Seq<char>> {
    v.map_values(|s: String| s@)
}

/// The names of a list of outputs.
pub open spec fn output_file_names(v: Seq<OutputFile>) -> Seq<Seq<char>> {
    v.map_values(|f: OutputFile| f.name@)
}

/// Each output's path is its name inside `dir`.
pub open spec fn paths_in(dir: Seq<char>, v: Seq<OutputFile>) -> bool {
    forall|i: int| 0 <= i < v.len() ==> (#[trigger] v[i]).path@ == joined(dir, v[i].name@)
}

/// The compressed outputs among the names `listing` of the directory `dir`, in
/// listing order.
pub fn find_outputs(dir: &String, listing: &Vec<String>) -> (r: Vec<OutputFile>)
    ensures
        output_file_names(r@) == output_names(names_of(listing@)),
        paths_in(dir@, r@),
{
    let marker = "-compressed.gif";
    let mut r: Vec<OutputFile> = Vec::new();
    let mut i: usize = 0;
    while i < listing.len()
        invariant
            0 <= i <= listing@.len(),
            marker@ == output_marker(),
            output_file_names(r@) == output_names(names_of(listing@.subrange(0, i as int))),
            paths_in(dir@, r@),
        decreases listing@.len() - i,
    {
        let ghost before = r@;
        proof {
            let next = names_of(listing@.subrange(0, i as int + 1));
            assert(next.drop_last() =~= names_of(listing@.subrange(0, i as int)));
            assert(next.last() == listing@[i as int]@);
            reveal_with_fuel(Seq::<_>::filter, 1);
        }
        if ends_with(listing[i].as_str(), marker) {
            let name = listing[i].clone();
            let path = join(dir, &name);
            r.push(OutputFile { name, path });
            proof {
                assert(output_file_names(r@) =~= output_file_names(before).push(listing@[i as int]@));
            }
        } else {
            proof {
                assert(output_file_names(r@) =~= output_file_names(before));
            }
        }
        i = i + 1;
    }
    proof {
        assert(listing@.subrange(0, listing@.len() as int) =~= listing@);
    }
    r
}

/// Decides a download for a request carrying `cookie`, given how listing the
/// session's directory went. Without a live session the request is bad; an absent
/// directory or one without outputs gives not-found; one output is served as it
/// is; two or more are bundled, all of them.
pub fn compress_result_download(
    state: &AppState,
    cookie: &Option<String>,
    listing: Result<Vec<String>, ListingError>,
) -> (r: DownloadPlan)
    ensures
        !session_live(
            state@,
            match cookie {
                Some(c) => Some(c@),
                None => None,
            },
        ) ==> r is BadRequest,
        session_live(
            state@,
            match cookie {
                Some(c) => Some(c@),
                None => None,
            },
        ) ==> match listing {
            Err(ListingError::NotFound) => r is NotFound,
            Err(ListingError::Other) => r is InternalError,
            Ok(names) => {
                let found = output_names(names_of(names@));
                &&& found.len() == 0 ==> r is NotFound
                &&& found.len() == 1 ==> (r matches DownloadPlan::Single(f) && f.name@ == found[0]
                    && f.path@ == joined(crate::paths::session_dir_of(cookie->Some_0@), found[0]))
                &&& found.len() >= 2 ==> (r matches DownloadPlan::Archive(v) && output_file_names(v@) == found
                    && paths_in(crate::paths::session_dir_of(cookie->Some_0@), v@))
            },
        },
{
    if !check_session(state, cookie) {
        return DownloadPlan::BadRequest;
    }
    let id = match cookie {
        Some(c) => c,
        None => return DownloadPlan::BadRequest,
    };
    let names = match listing {
        Ok(names) => names,
        Err(ListingError::NotFound) => return DownloadPlan::NotFound,
        Err(ListingError::Other) => return DownloadPlan::InternalError,
    };
    let dir = crate::paths::session_dir(id);
    let mut found = find_outputs(&dir, &names);
    let count = found.len();
    if count == 0 {
        DownloadPlan::NotFound
    } else if count == 1 {
        let f = found.pop().unwrap();
        proof {
            assert(output_file_names(found@.push(f)).last() == f.name@);
        }
        DownloadPlan::Single(f)
    } else {
        DownloadPlan::Archive(found)
    }
}

/// zip's error type, which the archive wrappers hand back.
#[verifier::external_type_specification]
#[verifier::external_body]
pub struct ExZipError(zip::result::ZipError);

/// A zip archive being written into memory. It is held opaque because Verus
/// refuses a declaration of zip's `ZipWriter`, whose writer parameter is bound by
/// I/O traits.
#[verifier::external_body]
pub struct ArchiveSink {
    writer: zip::ZipWriter<std::io::Cursor<Vec<u8>>>,
}

/// The entries started in an archive, in order: each one's name, the Unix
/// permissions it was started with, and the data written to it. Every entry is
/// started as stored (uncompressed) data.
pub uninterp spec fn archive_entries(a: ArchiveSink) -> Seq<(Seq<char>, u32, Seq<u8>)>;

/// The number of bytes written to the entry that is open, or `None` when no entry
/// has been started.
pub uninterp spec fn open_entry_len(a: ArchiveSink) -> Option<nat>;

/// The bytes of a finished archive of stored entries, each with the fixed default
/// modification time.
pub uninterp spec fn stored_zip(entries: Seq<(Seq<char>, u32, Seq<u8>)>) -> Seq<u8>;

/// No entry holds more data than a zip entry without the large-file option can.
pub open spec fn within_entry_limit(a: ArchiveSink) -> bool {
    match open_entry_len(a) {
        Some(n) => n <= u32::MAX,
        None => true,
    }
}

/// Relies on zip's `ZipWriter::new`: a new archive holds no entry.
#[verifier::external_body]
fn new_archive() -> (r: ArchiveSink)
    ensures
        archive_entries(r) == Seq::<(Seq<char>, u32, Seq<u8>)>::empty(),
        open_entry_len(r) is None,
{
    ArchiveSink { writer: zip::ZipWriter::new(std::io::Cursor::new(Vec::new())) }
}

/// Relies on zip's `ZipWriter::start_file`, with stored (uncompressed) data and
/// the Unix permissions `mode`. Writing to an in-memory cursor fails only once an
/// entry has passed the size limit; otherwise the archive gets one more, empty,
/// entry at its end.
#[verifier::external_body]
fn start_stored_entry(a: &mut ArchiveSink, name: &String, mode: u32) -> (r: Result<(), zip::result::ZipError>)
    ensures
        within_entry_limit(*old(a)) ==> r is Ok,
        r is Ok ==> archive_entries(*final(a)) == archive_entries(*old(a)).push((name@, mode, Seq::<u8>::empty())),
        r is Ok ==> open_entry_len(*final(a)) == Some(0nat),
{
    let options = zip::write::FileOptions::default().compression_method(zip::CompressionMethod::Stored).unix_permissions(mode);
    a.writer.start_file(name.clone(), options)
}

/// Relies on zip's `Write::write_all` for `ZipWriter`. Empty data changes nothing.
/// Otherwise it fails when no entry is open or when the open entry would pass
/// `u32::MAX` bytes, and else adds the data to the open entry; writing to an
/// in-memory cursor takes the whole buffer at once.
#[verifier::external_body]
fn write_entry_data(a: &mut ArchiveSink, data: &Vec<u8>) -> (r: Result<(), std::io::Error>)
    ensures
        data@.len() == 0 ==> {
            &&& r is Ok
            &&& archive_entries(*final(a)) == archive_entries(*old(a))
            &&& open_entry_len(*final(a)) == open_entry_len(*old(a))
        },
        data@.len() > 0 ==> (r is Ok <==> (open_entry_len(*old(a)) is Some && open_entry_len(*old(a))->Some_0
            + data@.len() <= u32::MAX)),
        data@.len() > 0 && r is Ok ==> {
            &&& open_entry_len(*final(a)) == Some((open_entry_len(*old(a))->Some_0 + data@.len()) as nat)
            &&& archive_entries(*final(a)) == archive_entries(*old(a)).update(
                archive_entries(*old(a)).len() - 1,
                (
                    archive_entries(*old(a)).last().0,
                    archive_entries(*old(a)).last().1,
                    archive_entries(*old(a)).last().2 + data@,
                ),
            )
        },
{
    a.writer.write_all(data.as_slice())
}

/// Relies on zip's `ZipWriter::finish`, which writes the central directory and
/// hands back the archive's bytes; into a cursor it fails only when an entry has
/// passed the size limit.
#[verifier::external_body]
fn finish_zip(a: ArchiveSink) -> (r: Result<Vec<u8>, zip::result::ZipError>)
    ensures
        within_entry_limit(a) ==> r is Ok,
        r matches Ok(b) ==> b@ == stored_zip(archive_entries(a)),
{
    let mut a = a;
    a.writer.finish().map(|c| c.into_inner())
}

/// The Unix permissions given to each archive entry.
pub const ENTRY_MODE: u32 = 0o755;

/// Why an archive could not be built.
#[derive(Debug, Clone, Copy, PartialEq, Eq, Structural)]
pub enum ArchiveError {
    Zip,
    Io,
}

/// The entries that bundle a list of members: each member's name and bytes, with
/// `ENTRY_MODE`, in order.
pub open spec fn member_entries(v: Seq<(String, Vec<u8>)>) -> Seq<(Seq<char>, u32, Seq<u8>)> {
    v.map_values(|m: (String, Vec<u8>)| (m.0@, ENTRY_MODE, m.1@))
}

/// Every member fits in a zip entry without the large-file option.
pub open spec fn members_fit(v: Seq<(String, Vec<u8>)>) -> bool {
    forall|i: int| 0 <= i < v.len() ==> (#[trigger] v[i]).1@.len() <= u32::MAX
}

/// Writes each member, a name and its bytes, as one stored entry, in order.
fn write_archive(members: &Vec<(String, Vec<u8>)>) -> (r: Result<ArchiveSink, ArchiveError>)
    ensures
        members_fit(members@) ==> r is Ok,
        r matches Ok(a) ==> archive_entries(a) == member_entries(members@) && within_entry_limit(a),
{
    let mut a = new_archive();
    let mut i: usize = 0;
    while i < members.len()
        invariant
            0 <= i <= members@.len(),
            archive_entries(a) == member_entries(members@.subrange(0, i as int)),
            within_entry_limit(a),
        decreases members@.len() - i,
    {
        if start_stored_entry(&mut a, &members[i].0, ENTRY_MODE).is_err() {
            return Err(ArchiveError::Zip);
        }
        if write_entry_data(&mut a, &members[i].1).is_err() {
            return Err(ArchiveError::Io);
        }
        proof {
            assert(members@[i as int].1@.len() <= u32::MAX);
            assert(member_entries(members@.subrange(0, i as int + 1)) =~= member_entries(
                members@.subrange(0, i as int),
            ).push((members@[i as int].0@, ENTRY_MODE, members@[i as int].1@)));
            assert(Seq::<u8>::empty() + members@[i as int].1@ =~= members@[i as int].1@);
            assert(archive_entries(a) =~= member_entries(members@.subrange(0, i as int + 1)));
        }
        i = i + 1;
    }
    proof {
        assert(members@.subrange(0, members@.len() as int) =~= members@);
    }
    Ok(a)
}

/// Bundles the members, each a name and its bytes, in one zip archive of stored
/// entries, one per member in order. It succeeds exactly when every member fits
/// in a zip entry without the large-file option.
pub fn build_archive(members: &Vec<(String, Vec<u8>)>) -> (r: Result<Vec<u8>, ArchiveError>)
    ensures
        r is Ok <==> members_fit(members@),
        r matches Ok(b) ==> b@ == stored_zip(member_entries(members@)),
{
    let mut i: usize = 0;
    while i < members.len()
        invariant
            0 <= i <= members@.len(),
            forall|j: int| 0 <= j < i ==> (#[trigger] members@[j]).1@.len() <= u32::MAX,
        decreases members@.len() - i,
    {
        if members[i].1.len() > 0xFFFF_FFFFusize {
            return Err(ArchiveError::Io);
        }
        i = i + 1;
    }
    let a = match write_archive(members) {
        Ok(a) => a,
        Err(e) => return Err(e),
    };
    match finish_zip(a) {
        Ok(bytes) => Ok(bytes),
        Err(_) => Err(ArchiveError::Zip),
    }
}

} // verus!
