//! Downloaded assets and the archive of the core.

use crate::error::{ManagerError, ManagerErrorView};
use crate::outside;
use crate::text;
use vstd::prelude::*;

verus! {

/// How an error document begins, in lower case.
pub open spec fn begins_like_error(prefix: Seq<char>) -> bool {
    ||| text::has_prefix(prefix, "<!doctype"@)
    ||| text::has_prefix(prefix, "<html"@)
    ||| text::has_prefix(prefix, "<?xml"@)
    ||| prefix.len() > 0 && prefix[0] == '{'
    ||| prefix.len() > 0 && prefix[0] == '['
}

/// Whether a text begins like an error document: HTML, XML or JSON.
pub open spec fn resembles_error(s: Seq<char>) -> bool {
    begins_like_error(text::ascii_lower(text::trim_front(s)))
}

/// Whether a text begins like an error document.
pub fn is_error_document(s: &str) -> (r: bool)
    ensures
        r == resembles_error(s@),
{
    let front = text::trim_start(s);
    let prefix = text::to_ascii_lowercase(front.as_str());
    let p = prefix.as_str();
    text::starts_with(p, "<!doctype") || text::starts_with(p, "<html") || text::starts_with(p, "<?xml")
        || text::starts_with_char(p, '{') || text::starts_with_char(p, '[')
}

/// The part of an asset that is looked at.
pub open spec fn asset_head(bytes: Seq<u8>) -> Seq<u8> {
    if bytes.len() < 512 {
        bytes
    } else {
        bytes.take(512)
    }
}

/// Why an asset is refused: it is empty, too long, or its head reads like an
/// error document.
pub open spec fn asset_problem(bytes: Seq<u8>, max: usize) -> Option<Seq<char>> {
    if bytes.len() == 0 {
        Some("asset is empty"@)
    } else if bytes.len() > max {
        Some("asset size limit exceeded"@)
    } else if resembles_error(outside::lossy_text(asset_head(bytes))) {
        Some("asset resembles an error document"@)
    } else {
        None
    }
}

/// Checks a downloaded asset.
pub fn validate_asset(bytes: &[u8], max_bytes: usize) -> (r: Result<(), ManagerError>)
    ensures
        match r {
            Ok(_) => asset_problem(bytes@, max_bytes) is None,
            Err(e) => asset_problem(bytes@, max_bytes) is Some && e@ == ManagerErrorView::Download(
                asset_problem(bytes@, max_bytes)->0,
            ),
        },
{
    if bytes.len() == 0 {
        return Err(ManagerError::Download(text::owned("asset is empty")));
    }
    if bytes.len() > max_bytes {
        return Err(ManagerError::Download(text::owned("asset size limit exceeded")));
    }
    let length: usize = if bytes.len() < 512 {
        bytes.len()
    } else {
        512
    };
    let head = vstd::slice::slice_subrange(bytes, 0, length);
    assert(head@ =~= asset_head(bytes@));
    if is_error_document(outside::utf8_lossy(head).as_str()) {
        return Err(ManagerError::Download(text::owned("asset resembles an error document")));
    }
    Ok(())
}

/// The name of the core's executable.
pub open spec fn core_name(windows: bool) -> Seq<char> {
    if windows {
        "xray.exe"@
    } else {
        "xray"@
    }
}

/// The name of the core's executable.
pub fn executable_name(windows: bool) -> (r: &'static str)
    ensures
        r@ == core_name(windows),
{
    if windows {
        "xray.exe"
    } else {
        "xray"
    }
}

/// What an archive says of one of its entries: the names in its path, where that
/// stays inside the destination, whether it is a directory, and its size.
#[derive(Debug)]
pub struct ZipEntry {
    pub path: Option<Vec<String>>,
    pub directory: bool,
    pub size: u64,
}

/// The mathematical value of a [`ZipEntry`].
#[verifier::ext_equal]
pub struct ZipEntryView {
    pub path: Option<Seq<Seq<char>>>,
    pub directory: bool,
    pub size: u64,
}

impl View for ZipEntry {
    type V = ZipEntryView;

    open spec fn view(&self) -> ZipEntryView {
        ZipEntryView {
            path: match self.path {
                Some(names) => Some(text::texts(names@)),
                None => None,
            },
            directory: self.directory,
            size: self.size,
        }
    }
}

/// `std::io::Cursor`, a reader over bytes.
#[verifier::external_type_specification]
#[verifier::external_body]
#[verifier::reject_recursive_types(T)]
pub struct ExCursor<T>(std::io::Cursor<T>);

/// `zip::ZipArchive`, an archive that was opened.
#[verifier::external_type_specification]
#[verifier::external_body]
#[verifier::reject_recursive_types(R)]
pub struct ExZipArchive<R>(zip::ZipArchive<R>);

/// An archive over bytes.
pub type Archive = zip::ZipArchive<std::io::Cursor<Vec<u8>>>;

/// The bytes that an archive was opened over.
pub uninterp spec fn archive_bytes(a: Archive) -> Seq<u8>;

/// Whether the `zip` that opened an archive is built for Windows.
pub uninterp spec fn archive_on_windows(a: Archive) -> bool;

/// The number of entries that `zip::ZipArchive` finds in bytes, or its error's text.
pub uninterp spec fn zip_length(bytes: Seq<u8>) -> Result<usize, Seq<char>>;

/// `zip::ZipArchive::new` over the bytes. An error is handed out as the text it
/// displays as.
#[verifier::external_body]
fn zip_open(bytes: &[u8]) -> (r: Result<Archive, String>)
    ensures
        match r {
            Ok(a) => archive_bytes(a) == bytes@ && zip_length(bytes@) is Ok,
            Err(e) => zip_length(bytes@) == Err::<usize, Seq<char>>(e@),
        },
{
    zip::ZipArchive::new(std::io::Cursor::new(bytes.to_vec())).map_err(|error| error.to_string())
}

/// `zip::ZipArchive::len`: the named number.
#[verifier::external_body]
fn zip_len(archive: &Archive) -> (r: usize)
    ensures
        match zip_length(archive_bytes(*archive)) {
            Ok(n) => r == n,
            Err(_) => false,
        },
{
    archive.len()
}

/// What `zip` says of an entry when it is built for Windows or for another system.
pub uninterp spec fn zip_entry_on(windows: bool, bytes: Seq<u8>, index: usize) -> Result<
    ZipEntryView,
    Seq<char>,
>;

pub open spec fn entry_view(r: Result<ZipEntry, String>) -> Result<ZipEntryView, Seq<char>> {
    match r {
        Ok(e) => Ok(e@),
        Err(e) => Err(e@),
    }
}

/// `zip::ZipArchive::by_index` with `enclosed_name`, `is_dir` and `size` of the
/// entry: the named description, a path by the names in it. Which paths
/// `enclosed_name` accepts depends on the system that the crate is built for;
/// that is one and the same for every entry of an archive.
#[verifier::external_body]
fn zip_entry(archive: &mut Archive, index: usize) -> (r: Result<
    ZipEntry,
    String,
>)
    ensures
        entry_view(r) == zip_entry_on(
            archive_on_windows(*old(archive)),
            archive_bytes(*old(archive)),
            index,
        ),
        archive_bytes(*final(archive)) == archive_bytes(*old(archive)),
        archive_on_windows(*final(archive)) == archive_on_windows(*old(archive)),
{
    let entry = archive.by_index(index).map_err(|error| error.to_string())?;
    Ok(ZipEntry {
        path: entry.enclosed_name().map(|path| {
            path.iter().map(|name| name.to_string_lossy().into_owned()).collect()
        }),
        directory: entry.is_dir(),
        size: entry.size(),
    })
}

/// The first `limit` bytes that `zip` unpacks of an entry, or its error's text.
pub uninterp spec fn zip_content(bytes: Seq<u8>, index: usize, limit: u64) -> Result<
    Seq<u8>,
    Seq<char>,
>;

/// Reading a `zip` entry through `std::io::Read::take` to its end: the named
/// bytes, which are at most `limit`.
#[verifier::external_body]
fn zip_read(
    archive: &mut Archive,
    index: usize,
    limit: u64,
) -> (r: Result<Vec<u8>, String>)
    ensures
        match r {
            Ok(v) => zip_content(archive_bytes(*old(archive)), index, limit) == Ok::<
                Seq<u8>,
                Seq<char>,
            >(v@) && v@.len() <= limit,
            Err(e) => zip_content(archive_bytes(*old(archive)), index, limit) == Err::<
                Seq<u8>,
                Seq<char>,
            >(e@),
        },
        archive_bytes(*final(archive)) == archive_bytes(*old(archive)),
        archive_on_windows(*final(archive)) == archive_on_windows(*old(archive)),
{
    let entry = archive.by_index(index).map_err(|error| error.to_string())?;
    let mut content = Vec::new();
    std::io::Read::read_to_end(&mut std::io::Read::take(entry, limit), &mut content)
        .map_err(|error| error.to_string())?;
    Ok(content)
}

/// Whether an entry is a core executable.
pub open spec fn holds_core(e: ZipEntryView) -> bool {
    &&& !e.directory
    &&& e.path matches Some(names) && names.len() > 0 && (names.last() == "xray"@ || names.last()
        == "xray.exe"@)
}

/// Whether an entry is taken out of the archive; each error with when it comes.
pub open spec fn entry_decision(e: ZipEntryView, found: bool, max: u64) -> Result<
    bool,
    Seq<char>,
> {
    if e.path is None {
        Err("ZIP path traversal detected"@)
    } else if !holds_core(e) {
        Ok(false)
    } else if e.size > max {
        Err("extracted Xray executable exceeds size limit"@)
    } else if found {
        Err("ZIP contains multiple Xray executables"@)
    } else {
        Ok(true)
    }
}

/// Whether an entry is taken out of the archive.
pub fn decide_entry(e: &ZipEntry, found: bool, max: u64) -> (r: Result<bool, ManagerError>)
    ensures
        match r {
            Ok(b) => entry_decision(e@, found, max) == Ok::<bool, Seq<char>>(b),
            Err(e2) => entry_decision(e@, found, max) is Err && e2@ == ManagerErrorView::Download(
                entry_decision(e@, found, max)->Err_0,
            ),
        },
{
    let names = match &e.path {
        Some(names) => names,
        None => {
            return Err(ManagerError::Download(text::owned("ZIP path traversal detected")));
        },
    };
    let count: usize = names.len();
    assert(text::texts(names@).len() == count);
    let expected = count > 0 && {
        assert(text::texts(names@).last() == names@[count - 1]@);
        text::same(names[count - 1].as_str(), "xray") || text::same(
            names[count - 1].as_str(),
            "xray.exe",
        )
    };
    if !expected || e.directory {
        Ok(false)
    } else if e.size > max {
        Err(ManagerError::Download(text::owned("extracted Xray executable exceeds size limit")))
    } else if found {
        Err(ManagerError::Download(text::owned("ZIP contains multiple Xray executables")))
    } else {
        Ok(true)
    }
}

/// How much of an entry is read: one byte more than is allowed.
pub open spec fn read_limit(max: u64) -> u64 {
    if max == u64::MAX {
        u64::MAX
    } else {
        (max + 1) as u64
    }
}

/// What an unpacked executable comes to.
pub open spec fn unpacked(content: Result<Seq<u8>, Seq<char>>, max: u64) -> Result<
    Seq<u8>,
    ManagerErrorView,
> {
    match content {
        Err(e) => Err(ManagerErrorView::Io(e)),
        Ok(v) => if v.len() > max {
            Err(ManagerErrorView::Download("extracted Xray executable exceeds size limit"@))
        } else {
            Ok(v)
        },
    }
}

/// What was found in the entries, taken in order; the first error stands.
pub open spec fn searched(
    bytes: Seq<u8>,
    entries: Seq<Result<ZipEntryView, Seq<char>>>,
    max: u64,
) -> Result<Option<Seq<u8>>, ManagerErrorView>
    decreases entries.len(),
{
    if entries.len() == 0 {
        Ok(None)
    } else {
        match searched(bytes, entries.drop_last(), max) {
            Err(e) => Err(e),
            Ok(found) => match entries.last() {
                Err(e) => Err(ManagerErrorView::Download(e)),
                Ok(entry) => match entry_decision(entry, found is Some, max) {
                    Err(e) => Err(ManagerErrorView::Download(e)),
                    Ok(false) => Ok(found),
                    Ok(true) => match unpacked(
                        zip_content(bytes, (entries.len() - 1) as usize, read_limit(max)),
                        max,
                    ) {
                        Err(e) => Err(e),
                        Ok(v) => Ok(Some(v)),
                    },
                },
            },
        }
    }
}

/// What an archive yields: the one core executable in it.
pub open spec fn extraction(
    bytes: Seq<u8>,
    entries: Seq<Result<ZipEntryView, Seq<char>>>,
    max: u64,
) -> Result<Seq<u8>, ManagerErrorView> {
    match searched(bytes, entries, max) {
        Err(e) => Err(e),
        Ok(None) => Err(ManagerErrorView::Download("ZIP does not contain an Xray executable"@)),
        Ok(Some(v)) => Ok(v),
    }
}

/// The entries of an archive of `n`, as `zip` describes them on a system.
pub open spec fn listed(windows: bool, bytes: Seq<u8>, n: nat) -> Seq<
    Result<ZipEntryView, Seq<char>>,
> {
    Seq::new(n, |i: int| zip_entry_on(windows, bytes, i as usize))
}

/// What an archive of `n` entries yields on a system.
pub open spec fn yield_on(windows: bool, bytes: Seq<u8>, n: nat, max: u64) -> Result<
    Seq<u8>,
    ManagerErrorView,
> {
    extraction(bytes, listed(windows, bytes, n), max)
}

pub open spec fn extracted(r: Result<Vec<u8>, ManagerError>) -> Result<Seq<u8>, ManagerErrorView> {
    match r {
        Ok(v) => Ok(v@),
        Err(e) => Err(e@),
    }
}

/// Takes the core executable out of an archive, at most `max` bytes of it.
/// Exactly one must be there, and every path must stay inside the archive. The
/// outcome is that of one of the two kinds of system, for the whole archive.
pub fn extract_xray_zip(bytes: &[u8], max_extracted_bytes: u64) -> (r: Result<
    Vec<u8>,
    ManagerError,
>)
    ensures
        match zip_length(bytes@) {
            Err(e) => extracted(r) == Err::<Seq<u8>, ManagerErrorView>(
                ManagerErrorView::Download("invalid ZIP: "@ + e),
            ),
            Ok(n) => {
                ||| extracted(r) == yield_on(true, bytes@, n as nat, max_extracted_bytes)
                ||| extracted(r) == yield_on(false, bytes@, n as nat, max_extracted_bytes)
            },
        },
        match r {
            Ok(v) => v@.len() <= max_extracted_bytes,
            Err(_) => true,
        },
{
    let mut archive = match zip_open(bytes) {
        Ok(archive) => archive,
        Err(e) => {
            return Err(ManagerError::Download(text::concat("invalid ZIP: ", e.as_str())));
        },
    };
    let count: usize = zip_len(&archive);
    let max: u64 = max_extracted_bytes;
    let ghost windows = archive_on_windows(archive);
    let ghost all = listed(windows, bytes@, count as nat);
    let mut found: Option<Vec<u8>> = None;
    let mut i: usize = 0;
    assert(all.take(0) =~= Seq::<Result<ZipEntryView, Seq<char>>>::empty());
    while i < count
        invariant
            i <= count,
            zip_length(bytes@) == Ok::<usize, Seq<char>>(count),
            max == max_extracted_bytes,
            archive_bytes(archive) == bytes@,
            archive_on_windows(archive) == windows,
            all == listed(windows, bytes@, count as nat),
            match found {
                Some(v) => v@.len() <= max && searched(bytes@, all.take(i as int), max) == Ok::<
                    Option<Seq<u8>>,
                    ManagerErrorView,
                >(Some(v@)),
                None => searched(bytes@, all.take(i as int), max) == Ok::<
                    Option<Seq<u8>>,
                    ManagerErrorView,
                >(None),
            },
        decreases count - i,
    {
        let reply = zip_entry(&mut archive, i);
        proof {
            assert(all.take(i + 1).drop_last() =~= all.take(i as int));
            assert(all.take(i + 1).last() == entry_view(reply));
        }
        let entry = match reply {
            Ok(entry) => entry,
            Err(e) => {
                proof {
                    lemma_error_stands(
                        windows,
                        bytes@,
                        i + 1,
                        count as nat,
                        max,
                        ManagerErrorView::Download(e@),
                    );
                }
                return Err(ManagerError::Download(e));
            },
        };
        let take = match decide_entry(&entry, found.is_some(), max) {
            Ok(take) => take,
            Err(e) => {
                proof {
                    lemma_error_stands(windows, bytes@, i + 1, count as nat, max, e@);
                }
                return Err(e);
            },
        };
        if take {
            let limit: u64 = if max == u64::MAX {
                u64::MAX
            } else {
                max + 1
            };
            match zip_read(&mut archive, i, limit) {
                Ok(content) => {
                    if content.len() as u64 > max {
                        proof {
                            lemma_error_stands(
                                windows,
                                bytes@,
                                i + 1,
                                count as nat,
                                max,
                                ManagerErrorView::Download(
                                    "extracted Xray executable exceeds size limit"@,
                                ),
                            );
                        }
                        return Err(
                            ManagerError::Download(
                                text::owned("extracted Xray executable exceeds size limit"),
                            ),
                        );
                    }
                    found = Some(content);
                },
                Err(e) => {
                    proof {
                        lemma_error_stands(
                            windows,
                            bytes@,
                            i + 1,
                            count as nat,
                            max,
                            ManagerErrorView::Io(e@),
                        );
                    }
                    return Err(ManagerError::Io(e));
                },
            }
        }
        i += 1;
    }
    assert(all.take(all.len() as int) =~= all);
    let r = match found {
        Some(v) => Ok(v),
        None => Err(ManagerError::Download(text::owned("ZIP does not contain an Xray executable"))),
    };
    assert(extracted(r) == yield_on(windows, bytes@, count as nat, max));
    r
}

/// An error in the first entries stands whatever the other entries are.
proof fn lemma_error_stands(
    windows: bool,
    bytes: Seq<u8>,
    k: int,
    n: nat,
    max: u64,
    e: ManagerErrorView,
)
    requires
        0 <= k <= n,
        searched(bytes, listed(windows, bytes, n).take(k), max) == Err::<
            Option<Seq<u8>>,
            ManagerErrorView,
        >(e),
    ensures
        yield_on(windows, bytes, n, max) == Err::<Seq<u8>, ManagerErrorView>(e),
    decreases n - k,
{
    let all = listed(windows, bytes, n);
    if k == n {
        assert(all.take(k) =~= all);
    } else {
        assert(all.take(k + 1).drop_last() =~= all.take(k));
        lemma_error_stands(windows, bytes, k + 1, n, max, e);
    }
}

/// An archive with an entry that leads outside is refused, whatever else is in it.
pub proof fn law_traversal_is_refused(
    bytes: Seq<u8>,
    entries: Seq<Result<ZipEntryView, Seq<char>>>,
    max: u64,
    i: int,
)
    requires
        0 <= i < entries.len(),
        entries[i] matches Ok(e) && e.path is None,
    ensures
        extraction(bytes, entries, max) is Err,
{
    lemma_searched_refused(bytes, entries, max, i);
}

proof fn lemma_searched_refused(
    bytes: Seq<u8>,
    entries: Seq<Result<ZipEntryView, Seq<char>>>,
    max: u64,
    i: int,
)
    requires
        0 <= i < entries.len(),
        entries[i] matches Ok(e) && e.path is None,
    ensures
        searched(bytes, entries, max) is Err,
    decreases entries.len(),
{
    if i < entries.len() - 1 {
        assert(entries.drop_last()[i] == entries[i]);
        lemma_searched_refused(bytes, entries.drop_last(), max, i);
    }
}

/// What is extracted is never longer than is allowed.
pub proof fn law_extraction_is_bounded(
    bytes: Seq<u8>,
    entries: Seq<Result<ZipEntryView, Seq<char>>>,
    max: u64,
)
    ensures
        match searched(bytes, entries, max) {
            Ok(Some(v)) => v.len() <= max,
            _ => true,
        },
    decreases entries.len(),
{
    if entries.len() > 0 {
        law_extraction_is_bounded(bytes, entries.drop_last(), max);
    }
}

} // verus!
