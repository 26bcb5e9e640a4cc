//! Archive extraction and creation.
//!
//! Extraction reads a container's entries and turns each into one step: make a
//! directory, write a file, or refuse an entry whose path would leave the
//! extraction folder. Creation packs regular files, flat, under their base names.
//! The caller performs the steps and stores the produced bytes.
use vstd::prelude::*;
use crate::config::{AppConfig, CalendarDate, Category, output_dir, get_output_path};
use crate::paths::{
    extension, file_name, file_name_exec, has_parent_segment, is_plain_name, is_safe_relative,
    is_safe_relative_exec, is_sep, join, join_exec, lemma_file_name_of_join, lemma_join_within,
    split_name, stem, within,
};
use crate::result::{ArchiveOptions, ConvertError, ConvertResult};
use crate::text::{chars_of, push_all, push_decimal, decimal, string_of};
use crate::zip_io::{
    entries_small, zip_all_deflate, zip_deflated, zip_entry_encrypted, zip_opened, EntryRead, new_zip_builder, open_zip, readable_entries, zip_decoded,
    zip_entries, zip_entry, zip_fault, zip_finish, zip_len, zip_start_entry, zip_write,
    zip_written, ZipBuilder, ZipFault, ZipReader, ZIP_ENTRY_LIMIT,
};

verus! {

/// The container formats that can be requested.
#[derive(Debug, Clone, Copy, PartialEq, Eq, Structural)]
pub enum ArchiveFormat {
    Zip,
    SevenZ,
    Rar,
}

/// Container entries over plain values: name and content.
pub type EntryList = Seq<(Seq<char>, Seq<u8>)>;

/// Whether `e` spells the word whose lower- and upper-case letters are `lo` and `up`.
pub open spec fn spells(e: Seq<char>, lo: Seq<char>, up: Seq<char>) -> bool {
    &&& e.len() == lo.len()
    &&& forall|i: int| 0 <= i < e.len() ==> e[i] == lo[i] || e[i] == up[i]
}

/// The format a file extension stands for, ignoring ASCII case.
pub open spec fn format_of_extension(e: Seq<char>) -> Option<ArchiveFormat> {
    if spells(e, seq!['z', 'i', 'p'], seq!['Z', 'I', 'P']) {
        Some(ArchiveFormat::Zip)
    } else if spells(e, seq!['7', 'z'], seq!['7', 'Z']) {
        Some(ArchiveFormat::SevenZ)
    } else if spells(e, seq!['r', 'a', 'r'], seq!['R', 'A', 'R']) {
        Some(ArchiveFormat::Rar)
    } else {
        None
    }
}

/// The extension of the file a path names; empty when it has none.
pub open spec fn path_extension(p: Seq<char>) -> Seq<char> {
    match file_name(p) {
        Some(n) => match extension(n) {
            Some(e) => e,
            None => Seq::empty(),
        },
        None => Seq::empty(),
    }
}

/// The stem of the file a path names, or `dflt` when it names none.
pub open spec fn path_stem_or(p: Seq<char>, dflt: Seq<char>) -> Seq<char> {
    match file_name(p) {
        Some(n) => stem(n),
        None => dflt,
    }
}

fn spells_exec(e: &Vec<char>, lo: &Vec<char>, up: &Vec<char>) -> (r: bool)
    requires
        lo@.len() == up@.len(),
    ensures
        r == spells(e@, lo@, up@),
{
    if e.len() != lo.len() {
        return false;
    }
    let mut i: usize = 0;
    while i < e.len()
        invariant
            e@.len() == lo@.len(),
            lo@.len() == up@.len(),
            i <= e@.len(),
            forall|k: int| 0 <= k < i ==> e@[k] == lo@[k] || e@[k] == up@[k],
        decreases e@.len() - i,
    {
        if e[i] != lo[i] && e[i] != up[i] {
            return false;
        }
        i = i + 1;
    }
    true
}

/// The format an extension stands for (`zip`, `7z`, `rar`, in any ASCII case).
pub fn format_for_extension(e: &Vec<char>) -> (r: Option<ArchiveFormat>)
    ensures
        r == format_of_extension(e@),
{
    if spells_exec(e, &vec!['z', 'i', 'p'], &vec!['Z', 'I', 'P']) {
        Some(ArchiveFormat::Zip)
    } else if spells_exec(e, &vec!['7', 'z'], &vec!['7', 'Z']) {
        Some(ArchiveFormat::SevenZ)
    } else if spells_exec(e, &vec!['r', 'a', 'r'], &vec!['R', 'A', 'R']) {
        Some(ArchiveFormat::Rar)
    } else {
        None
    }
}

/// One action of an extraction.
#[derive(Debug, Clone)]
pub enum ExtractStep {
    /// Create this directory and its missing ancestors.
    CreateDir(String),
    /// Write these bytes to this file, replacing it, after creating its parent.
    WriteFile(String, Vec<u8>),
    /// This entry name escapes the extraction folder; nothing is written for it.
    Reject(String),
}

/// What an `ExtractStep` does, over plain values.
pub enum StepView {
    CreateDir(Seq<char>),
    WriteFile(Seq<char>, Seq<u8>),
    Reject(Seq<char>),
}

impl View for ExtractStep {
    type V = StepView;

    open spec fn view(&self) -> StepView {
        match self {
            ExtractStep::CreateDir(p) => StepView::CreateDir(p@),
            ExtractStep::WriteFile(p, d) => StepView::WriteFile(p@, d@),
            ExtractStep::Reject(n) => StepView::Reject(n@),
        }
    }
}

/// Names that end in `/` are directories.
pub open spec fn is_dir_name(n: Seq<char>) -> bool {
    n.len() > 0 && n.last() == '/'
}

/// The step for an entry named `name` with content `data`, extracted under `root`.
pub open spec fn step_for(root: Seq<char>, name: Seq<char>, data: Seq<u8>) -> StepView {
    if !is_safe_relative(name) {
        StepView::Reject(name)
    } else if is_dir_name(name) {
        StepView::CreateDir(join(root, name))
    } else {
        StepView::WriteFile(join(root, name), data)
    }
}

/// The target path of a step that writes, if any.
pub open spec fn step_target(s: StepView) -> Option<Seq<char>> {
    match s {
        StepView::CreateDir(p) => Some(p),
        StepView::WriteFile(p, _) => Some(p),
        StepView::Reject(_) => None,
    }
}

/// Whether `steps` are, one for one and in order, the steps for extracting
/// `es` under `root`.
pub open spec fn plans(steps: Seq<ExtractStep>, root: Seq<char>, es: EntryList) -> bool {
    &&& steps.len() == es.len()
    &&& forall|i: int| 0 <= i < es.len() ==> #[trigger] steps[i]@ == step_for(root, es[i].0, es[i].1)
}

/// Entry pairs over plain values.
pub open spec fn pairs_view(v: Seq<(String, Vec<u8>)>) -> Seq<(Seq<char>, Seq<u8>)> {
    Seq::new(v.len(), |i: int| (v[i].0@, v[i].1@))
}

/// An entry whose name holds a `..` segment is refused, and every step that
/// writes stays inside the extraction root.
pub proof fn lemma_entry_confined(root: Seq<char>, name: Seq<char>, data: Seq<u8>)
    ensures
        has_parent_segment(name) ==> step_for(root, name, data) is Reject,
        step_target(step_for(root, name, data)) matches Some(p) ==> within(root, p),
{
    if is_safe_relative(name) {
        lemma_join_within(root, name);
    }
}

/// In any extraction plan, every entry whose name holds a `..` segment is
/// refused, and no step writes outside the extraction root.
pub proof fn lemma_plan_confined(steps: Seq<ExtractStep>, root: Seq<char>, es: EntryList)
    requires
        plans(steps, root, es),
    ensures
        forall|i: int| 0 <= i < es.len() && has_parent_segment(es[i].0) ==> #[trigger] steps[i]@ is Reject,
        forall|i: int| 0 <= i < steps.len() ==> (step_target(#[trigger] steps[i]@) matches Some(p) ==> within(root, p)),
{
    assert forall|i: int| 0 <= i < steps.len() implies (step_target(#[trigger] steps[i]@) matches Some(p) ==> within(root, p)) by {
        lemma_entry_confined(root, es[i].0, es[i].1);
    }
    assert forall|i: int| 0 <= i < es.len() && has_parent_segment(es[i].0) implies #[trigger] steps[i]@ is Reject by {
        lemma_entry_confined(root, es[i].0, es[i].1);
    }
}

/// The step for one entry (see `step_for`).
pub fn plan_entry(root: &Vec<char>, name: &String, data: &Vec<u8>) -> (r: ExtractStep)
    ensures
        r@ == step_for(root@, name@, data@),
{
    let n = chars_of(name.as_str());
    if !is_safe_relative_exec(&n) {
        ExtractStep::Reject(name.clone())
    } else if n.len() > 0 && n[n.len() - 1] == '/' {
        ExtractStep::CreateDir(string_of(&join_exec(root, &n)))
    } else {
        ExtractStep::WriteFile(string_of(&join_exec(root, &n)), data.clone())
    }
}

/// One step per entry, in order, for extracting `entries` under `root`.
pub fn plan_entries(root: &str, entries: &Vec<(String, Vec<u8>)>) -> (r: Vec<ExtractStep>)
    ensures
        r@.len() == entries@.len(),
        forall|i: int| 0 <= i < r@.len() ==> r@[i]@ == step_for(root@, entries@[i].0@, entries@[i].1@),
{
    let rt = chars_of(root);
    let mut out: Vec<ExtractStep> = Vec::new();
    let mut i: usize = 0;
    while i < entries.len()
        invariant
            rt@ == root@,
            i <= entries@.len(),
            out@.len() == i,
            forall|k: int| 0 <= k < i ==> out@[k]@ == step_for(root@, entries@[k].0@, entries@[k].1@),
        decreases entries@.len() - i,
    {
        let s = plan_entry(&rt, &entries[i].0, &entries[i].1);
        out.push(s);
        i = i + 1;
    }
    out
}

/// `prefix` followed by `detail`.
fn text_with(prefix: &str, detail: &String) -> (r: String)
    ensures
        r@ == prefix@ + detail@,
{
    let mut v = chars_of(prefix);
    let d = chars_of(detail.as_str());
    push_all(&mut v, &d);
    string_of(&v)
}

/// The library error for a codec failure: i/o and missing entries are `IoError`,
/// a malformed container is `UnsupportedFormat`, and an encrypted entry, a wrong
/// password or an unsupported method is `UnsupportedOrEncrypted`. The message
/// carries the codec's own description.
pub fn error_of_fault(f: ZipFault) -> (r: ConvertError)
    ensures
        match f {
            ZipFault::Io(d) => r matches ConvertError::IoError(t) && t@ == "ZIP i/o error: "@ + d@,
            ZipFault::InvalidArchive(d) => r matches ConvertError::UnsupportedFormat(t)
                && t@ == "invalid ZIP archive: "@ + d@,
            ZipFault::UnsupportedArchive(d) => r matches ConvertError::UnsupportedOrEncrypted(t)
                && t@ == "unsupported or encrypted ZIP content: "@ + d@,
            ZipFault::FileNotFound => r matches ConvertError::IoError(t) && t@ == "ZIP entry not found"@,
            ZipFault::InvalidPassword => r matches ConvertError::UnsupportedOrEncrypted(t)
                && t@ == "the ZIP password is incorrect"@,
        },
{
    match f {
        ZipFault::Io(d) => ConvertError::IoError(text_with("ZIP i/o error: ", &d)),
        ZipFault::InvalidArchive(d) => ConvertError::UnsupportedFormat(text_with("invalid ZIP archive: ", &d)),
        ZipFault::UnsupportedArchive(d) => ConvertError::UnsupportedOrEncrypted(
            text_with("unsupported or encrypted ZIP content: ", &d),
        ),
        ZipFault::FileNotFound => ConvertError::IoError(string_of(&chars_of("ZIP entry not found"))),
        ZipFault::InvalidPassword => ConvertError::UnsupportedOrEncrypted(
            string_of(&chars_of("the ZIP password is incorrect")),
        ),
    }
}

/// Whether an error can come from the ZIP codec.
pub open spec fn is_codec_error(e: ConvertError) -> bool {
    e is IoError || e is UnsupportedFormat || e is UnsupportedOrEncrypted
}

/// Whether entry `k` is the first of `es` that cannot be read.
pub open spec fn first_failed(es: Seq<(Seq<char>, EntryRead)>, k: int) -> bool {
    &&& 0 <= k < es.len()
    &&& !(es[k].1 is Read)
    &&& forall|j: int| 0 <= j < k ==> (#[trigger] es[j]).1 is Read
}

/// Whether the first entry of `es` that cannot be read is an encrypted one.
pub open spec fn first_failure_encrypted(es: Seq<(Seq<char>, EntryRead)>) -> bool {
    exists|k: int| #[trigger] first_failed(es, k) && es[k].1 is Encrypted
}

/// The refusal of an encrypted entry, by its index.
fn encrypted_message(i: usize) -> (r: String) {
    let mut m = chars_of("ZIP entry ");
    push_decimal(&mut m, i as u64);
    push_all(&mut m, &chars_of(" is encrypted and no password can be applied"));
    string_of(&m)
}

/// Reads every entry of an open container, in order. It succeeds exactly when
/// every entry can be read; when the first entry that cannot be read is
/// encrypted, it fails with `UnsupportedOrEncrypted`.
pub fn read_zip_entries(a: &mut ZipReader) -> (r: Result<Vec<(String, Vec<u8>)>, ConvertError>)
    ensures
        r is Ok <==> readable_entries(zip_entries(*old(a))) is Some,
        r matches Ok(es) ==> readable_entries(zip_entries(*old(a))) == Some(pairs_view(es@)),
        first_failure_encrypted(zip_entries(*old(a))) ==> (r matches Err(e) && e is UnsupportedOrEncrypted),
        r matches Err(e) ==> is_codec_error(e),
{
    let n = zip_len(a);
    let ghost entries = zip_entries(*a);
    assert(entries == zip_entries(*old(a)));
    let mut out: Vec<(String, Vec<u8>)> = Vec::new();
    let mut i: usize = 0;
    while i < n
        invariant
            n == entries.len(),
            entries == zip_entries(*old(a)),
            zip_entries(*a) == entries,
            i <= n,
            out@.len() == i,
            forall|k: int| 0 <= k < i ==> (#[trigger] entries[k]).1 is Read,
            forall|k: int| 0 <= k < i ==> (#[trigger] out@[k].0@, out@[k].1@) == (entries[k].0, entries[k].1->Read_0),
        decreases n - i,
    {
        match zip_entry(a, i) {
            Ok(e) => {
                out.push(e);
            },
            Err(z) => {
                assert(!(entries[i as int].1 is Read));
                assert(!(forall|k: int| 0 <= k < entries.len() ==> (#[trigger] entries[k]).1 is Read));
                assert(first_failed(entries, i as int));
                assert forall|k: int| #[trigger] first_failed(entries, k) implies k == i by {
                    if k < i {
                        assert(entries[k].1 is Read);
                    } else if k > i {
                        assert(entries[i as int].1 is Read);
                    }
                }
                let enc = zip_entry_encrypted(a, i);
                match enc {
                    Ok(true) => {
                        return Err(ConvertError::UnsupportedOrEncrypted(encrypted_message(i)));
                    },
                    _ => {
                        assert(!(entries[i as int].1 is Encrypted));
                        assert(!first_failure_encrypted(entries));
                        return Err(error_of_fault(zip_fault(&z)));
                    },
                }
            },
        }
        i = i + 1;
    }
    assert(readable_entries(entries) == Some(pairs_view(out@))) by {
        assert(forall|k: int| 0 <= k < entries.len() ==> (#[trigger] entries[k]).1 is Read);
        assert(Seq::new(entries.len(), |k: int| (entries[k].0, entries[k].1->Read_0)) =~= pairs_view(out@));
    }
    assert(!first_failure_encrypted(entries));
    Ok(out)
}

/// Extracts a ZIP container held in `bytes` into the folder `output`: one step
/// per entry of the container, in order. It succeeds exactly when the container
/// can be decoded. The password is accepted but not used; encrypted entries
/// fail with `UnsupportedOrEncrypted`.
pub fn extract_zip(bytes: Vec<u8>, output: &str, password: Option<String>) -> (r: Result<Vec<ExtractStep>, ConvertError>)
    ensures
        r is Ok <==> zip_decoded(bytes@) is Some,
        r matches Ok(steps) ==> plans(steps@, output@, zip_decoded(bytes@)->Some_0),
        match zip_opened(bytes@) {
            Some(es) => first_failure_encrypted(es) ==> (r matches Err(e) && e is UnsupportedOrEncrypted),
            None => true,
        },
        r matches Err(e) ==> is_codec_error(e),
{
    let ghost b = bytes@;
    let mut a = match open_zip(bytes) {
        Ok(a) => a,
        Err(z) => {
            return Err(error_of_fault(zip_fault(&z)));
        },
    };
    let entries = read_zip_entries(&mut a)?;
    let steps = plan_entries(output, &entries);
    assert forall|i: int| 0 <= i < pairs_view(entries@).len() implies #[trigger] steps@[i]@ == step_for(
        output@,
        pairs_view(entries@)[i].0,
        pairs_view(entries@)[i].1,
    ) by {
        assert(pairs_view(entries@)[i] == (entries@[i].0@, entries@[i].1@));
    }
    assert(plans(steps@, output@, pairs_view(entries@)));
    Ok(steps)
}

/// Extraction of 7z containers: no engine exists, so it always fails.
pub fn extract_7z(path: &str, output: &str, password: Option<String>) -> (r: Result<(), ConvertError>)
    ensures
        r matches Err(e) && e is NotImplemented,
{
    Err(ConvertError::NotImplemented(String::from_str("7z extraction is not implemented")))
}

/// Extraction of RAR containers: no engine exists, so it always fails.
pub fn extract_rar(path: &str, output: &str, password: Option<String>) -> (r: Result<(), ConvertError>)
    ensures
        r matches Err(e) && e is NotImplemented,
{
    Err(ConvertError::NotImplemented(String::from_str("RAR extraction is not implemented")))
}

/// What an extraction does: the folder to create, the steps to perform in it,
/// and the result to report once they are done.
#[derive(Debug, Clone)]
pub struct ExtractPlan {
    pub extract_folder: String,
    pub steps: Vec<ExtractStep>,
    pub result: ConvertResult,
}

pub open spec fn extracted_default() -> Seq<char> {
    seq!['e', 'x', 't', 'r', 'a', 'c', 't', 'e', 'd']
}

/// The folder an archive at `path` is extracted to on day `d`.
pub open spec fn extract_folder_for(c: AppConfig, path: Seq<char>, d: CalendarDate) -> Seq<char> {
    join(output_dir(c, Category::Archives, d), path_stem_or(path, extracted_default()))
}

/// The extension and stem of the file `path` names.
fn name_parts(path: &str) -> (r: (Vec<char>, Vec<char>))
    ensures
        r.0@ == path_extension(path@),
        r.1@ == path_stem_or(path@, extracted_default()),
{
    let p = chars_of(path);
    match file_name_exec(&p) {
        Some(n) => {
            let (s, e) = split_name(&n);
            match e {
                Some(e) => (e, s),
                None => (Vec::new(), s),
            }
        },
        None => {
            let d = vec!['e', 'x', 't', 'r', 'a', 'c', 't', 'e', 'd'];
            assert(d@ =~= extracted_default());
            (Vec::new(), d)
        },
    }
}

/// The format of the archive at `path`, by its extension.
pub fn format_of_path(path: &str) -> (r: Option<ArchiveFormat>)
    ensures
        r == format_of_extension(path_extension(path@)),
{
    let (ext, _stem) = name_parts(path);
    format_for_extension(&ext)
}

/// How many of `steps` refuse an entry.
pub open spec fn rejected_count(steps: Seq<ExtractStep>) -> nat
    decreases steps.len(),
{
    if steps.len() == 0 {
        0
    } else {
        rejected_count(steps.drop_last()) + if steps.last()@ is Reject { 1nat } else { 0nat }
    }
}

/// The report of a finished extraction, naming how many entries were refused.
pub open spec fn extract_message(refused: nat) -> Seq<char> {
    if refused == 0 {
        "Extraction complete"@
    } else {
        "Extraction complete; refused "@ + decimal(refused) + " entries that would leave the extraction folder"@
    }
}

fn extract_message_exec(steps: &Vec<ExtractStep>) -> (r: String)
    ensures
        r@ == extract_message(rejected_count(steps@)),
{
    let mut n: u64 = 0;
    let mut i: usize = 0;
    while i < steps.len()
        invariant
            i <= steps@.len(),
            n == rejected_count(steps@.take(i as int)),
            n <= i,
        decreases steps@.len() - i,
    {
        assert(steps@.take(i + 1).drop_last() =~= steps@.take(i as int));
        match &steps[i] {
            ExtractStep::Reject(_) => {
                n = n + 1;
            },
            _ => {},
        }
        i = i + 1;
    }
    assert(steps@.take(steps@.len() as int) =~= steps@);
    if n == 0 {
        string_of(&chars_of("Extraction complete"))
    } else {
        let mut m = chars_of("Extraction complete; refused ");
        push_decimal(&mut m, n);
        push_all(&mut m, &chars_of(" entries that would leave the extraction folder"));
        string_of(&m)
    }
}

/// Plans the extraction of the archive at `path`, whose bytes are `archive`, on
/// day `today`. The format follows the file's extension; the archive goes to a
/// folder named after the file's stem inside the day's Archives folder.
pub fn extract(config: &AppConfig, path: &str, password: Option<String>, today: CalendarDate, archive: Vec<u8>) -> (r: Result<ExtractPlan, ConvertError>)
    ensures
        format_of_extension(path_extension(path@)) is None ==> (r matches Err(ConvertError::UnsupportedFormat(t))
            && t@ == "Unsupported archive format: "@ + path_extension(path@)),
        format_of_extension(path_extension(path@)) == Some(ArchiveFormat::SevenZ)
            ==> (r matches Err(e) && e is NotImplemented),
        format_of_extension(path_extension(path@)) == Some(ArchiveFormat::Rar)
            ==> (r matches Err(e) && e is NotImplemented),
        format_of_extension(path_extension(path@)) == Some(ArchiveFormat::Zip) ==> {
            &&& r is Ok <==> zip_decoded(archive@) is Some
            &&& match r {
                Ok(p) => {
                    &&& p.extract_folder@ == extract_folder_for(*config, path@, today)
                    &&& p.result.success
                    &&& p.result.output_files@.len() == 1
                    &&& p.result.output_files@[0]@ == p.extract_folder@
                    &&& p.result.output_folder@ == output_dir(*config, Category::Archives, today)
                    &&& plans(p.steps@, p.extract_folder@, zip_decoded(archive@)->Some_0)
                    &&& p.result.message@ == extract_message(rejected_count(p.steps@))
                },
                Err(e) => is_codec_error(e),
            }
        },
{
    let (ext, stem_chars) = name_parts(path);
    let format = format_for_extension(&ext);
    let output_folder = get_output_path(config, Category::Archives, today);
    let of = chars_of(output_folder.as_str());
    let folder = string_of(&join_exec(&of, &stem_chars));
    match format {
        None => {
            let msg = text_with("Unsupported archive format: ", &string_of(&ext));
            Err(ConvertError::UnsupportedFormat(msg))
        },
        Some(ArchiveFormat::SevenZ) => {
            extract_7z(path, folder.as_str(), password)?;
            Err(ConvertError::NotImplemented(String::from_str("7z extraction is not implemented")))
        },
        Some(ArchiveFormat::Rar) => {
            extract_rar(path, folder.as_str(), password)?;
            Err(ConvertError::NotImplemented(String::from_str("RAR extraction is not implemented")))
        },
        Some(ArchiveFormat::Zip) => {
            let steps = extract_zip(archive, folder.as_str(), password)?;
            let mut files: Vec<String> = Vec::new();
            files.push(folder.clone());
            let result = ConvertResult {
                success: true,
                output_files: files,
                output_folder: output_folder,
                message: extract_message_exec(&steps),
            };
            Ok(ExtractPlan { extract_folder: folder, steps, result })
        },
    }
}

/// A file offered for packing: its path, and its bytes when the path names a
/// regular file (none for a directory or a missing path).
#[derive(Debug, Clone)]
pub struct SourceFile {
    pub path: String,
    pub content: Option<Vec<u8>>,
}

/// The entry name of a packed file: its base name, or `file` when the path names none.
pub open spec fn entry_name_for(p: Seq<char>) -> Seq<char> {
    match file_name(p) {
        Some(n) => n,
        None => seq!['f', 'i', 'l', 'e'],
    }
}

/// The entry a source contributes: regular files only.
pub open spec fn source_entry(s: SourceFile) -> Option<(Seq<char>, Seq<u8>)> {
    match s.content {
        Some(c) => Some((entry_name_for(s.path@), c@)),
        None => None,
    }
}

/// The entries of an archive packed from `s`: one per regular file, in order.
pub open spec fn entries_for(s: Seq<SourceFile>) -> EntryList {
    s.filter_map(|x: SourceFile| source_entry(x))
}

/// A path that is not a regular file adds no entry; a regular file adds one
/// entry, after those of the paths before it.
pub proof fn lemma_entries_skip_non_files(s: Seq<SourceFile>, x: SourceFile)
    ensures
        x.content is None ==> entries_for(s.push(x)) == entries_for(s),
        x.content matches Some(c) ==> entries_for(s.push(x)) == entries_for(s).push((entry_name_for(x.path@), c@)),
{
    assert(s.push(x).drop_last() =~= s);
    assert(s.push(x).last() == x);
    if x.content is Some {
        assert(entries_for(s.push(x)) =~= entries_for(s).push((entry_name_for(x.path@), x.content->Some_0@)));
    }
}

/// Packing a path that names no file together with two regular files of
/// distinct base names of at most 65535 bytes and contents within `ZIP_ENTRY_LIMIT`
/// yields exactly the two files' entries, which the writer accepts.
pub proof fn lemma_missing_path_then_two_files(m: SourceFile, f1: SourceFile, f2: SourceFile)
    requires
        m.content is None,
        f1.content is Some,
        f2.content is Some,
        entry_name_for(f1.path@) != entry_name_for(f2.path@),
        name_bytes(entry_name_for(f1.path@)) <= 65535,
        name_bytes(entry_name_for(f2.path@)) <= 65535,
        f1.content->Some_0@.len() <= ZIP_ENTRY_LIMIT,
        f2.content->Some_0@.len() <= ZIP_ENTRY_LIMIT,
    ensures
        entries_for(seq![m, f1, f2]) == seq![
            (entry_name_for(f1.path@), f1.content->Some_0@),
            (entry_name_for(f2.path@), f2.content->Some_0@),
        ],
        packable(entries_for(seq![m, f1, f2])),
{
    let e = Seq::<SourceFile>::empty();
    lemma_entries_skip_non_files(e, m);
    lemma_entries_skip_non_files(e.push(m), f1);
    lemma_entries_skip_non_files(e.push(m).push(f1), f2);
    assert(e.push(m).push(f1).push(f2) =~= seq![m, f1, f2]);
    assert(entries_for(e) =~= Seq::<(Seq<char>, Seq<u8>)>::empty());
    let es = entries_for(seq![m, f1, f2]);
    assert(es =~= seq![
        (entry_name_for(f1.path@), f1.content->Some_0@),
        (entry_name_for(f2.path@), f2.content->Some_0@),
    ]);
}

/// The entries packed from `sources` (see `entries_for`).
pub fn archive_entries(sources: &Vec<SourceFile>) -> (r: Vec<(String, Vec<u8>)>)
    ensures
        pairs_view(r@) == entries_for(sources@),
{
    let mut out: Vec<(String, Vec<u8>)> = Vec::new();
    let mut i: usize = 0;
    while i < sources.len()
        invariant
            i <= sources@.len(),
            pairs_view(out@) == entries_for(sources@.take(i as int)),
        decreases sources@.len() - i,
    {
        proof {
            sources@.lemma_filter_map_take_succ(|x: SourceFile| source_entry(x), i as int);
        }
        let ghost before = out@;
        match &sources[i].content {
            Some(c) => {
                let p = chars_of(sources[i].path.as_str());
                let name = match file_name_exec(&p) {
                    Some(n) => n,
                    None => {
                        let d = vec!['f', 'i', 'l', 'e'];
                        assert(d@ =~= seq!['f', 'i', 'l', 'e']);
                        d
                    },
                };
                out.push((string_of(&name), c.clone()));
                proof {
                    assert(pairs_view(out@) =~= pairs_view(before).push((name@, c@)));
                }
            },
            None => {},
        }
        i = i + 1;
    }
    proof {
        assert(sources@.take(sources@.len() as int) =~= sources@);
    }
    out
}

/// The UTF-8 length of a name.
pub open spec fn name_bytes(n: Seq<char>) -> nat {
    vstd::utf8::encode_utf8(n).len()
}

/// Whether the entry names are pairwise distinct and each fits the format's
/// 65535-byte name field.
pub open spec fn names_ok(es: EntryList) -> bool {
    &&& forall|i: int, j: int| 0 <= i < j < es.len() ==> (#[trigger] es[i]).0 != (#[trigger] es[j]).0
    &&& forall|k: int| 0 <= k < es.len() ==> name_bytes((#[trigger] es[k]).0) <= 65535
}

/// Entries that the writer stores: distinct names that fit, and contents within
/// `ZIP_ENTRY_LIMIT`.
pub open spec fn packable(es: EntryList) -> bool {
    names_ok(es) && entries_small(es)
}

/// Why `entries` cannot be packed by name, if they cannot (see `names_ok`).
pub fn name_problem(entries: &Vec<(String, Vec<u8>)>) -> (r: Option<String>)
    ensures
        r is None <==> names_ok(pairs_view(entries@)),
{
    let ghost es = pairs_view(entries@);
    let mut i: usize = 0;
    while i < entries.len()
        invariant
            es == pairs_view(entries@),
            i <= entries@.len(),
            forall|p: int, q: int| 0 <= p < q < i ==> (#[trigger] es[p]).0 != (#[trigger] es[q]).0,
            forall|k: int| 0 <= k < i ==> name_bytes((#[trigger] es[k]).0) <= 65535,
        decreases entries@.len() - i,
    {
        assert(es[i as int] == (entries@[i as int].0@, entries@[i as int].1@));
        if entries[i].0.as_str().as_bytes().len() > 65535 {
            return Some(text_with("entry name too long: ", &entries[i].0));
        }
        let mut j: usize = 0;
        while j < i
            invariant
                es == pairs_view(entries@),
                j <= i,
                i < entries@.len(),
                forall|p: int| 0 <= p < j ==> (#[trigger] es[p]).0 != es[i as int].0,
            decreases i - j,
        {
            assert(es[j as int] == (entries@[j as int].0@, entries@[j as int].1@));
            assert(es[i as int] == (entries@[i as int].0@, entries@[i as int].1@));
            if entries[j].0 == entries[i].0 {
                return Some(text_with("duplicate entry name: ", &entries[i].0));
            }
            j = j + 1;
        }
        i = i + 1;
    }
    None
}

/// Writes `entries`, in order, as new entries of `w`. It succeeds when the
/// entries already written and the new ones together are packable.
pub fn write_zip_entries(w: &mut ZipBuilder, entries: &Vec<(String, Vec<u8>)>) -> (r: Result<(), ConvertError>)
    ensures
        r is Ok ==> zip_written(*final(w)) == zip_written(*old(w)) + pairs_view(entries@),
        zip_all_deflate(*old(w)) ==> zip_all_deflate(*final(w)),
        packable(zip_written(*old(w)) + pairs_view(entries@)) ==> r is Ok,
        r matches Err(e) ==> is_codec_error(e) || e is InvalidRequest,
{
    let ghost start = zip_written(*w);
    let ghost all = start + pairs_view(entries@);
    let mut i: usize = 0;
    while i < entries.len()
        invariant
            i <= entries@.len(),
            all == start + pairs_view(entries@),
            start == zip_written(*old(w)),
            zip_all_deflate(*old(w)) ==> zip_all_deflate(*w),
            zip_written(*w) == start + pairs_view(entries@).take(i as int),
        decreases entries@.len() - i,
    {
        let ghost before = zip_written(*w);
        assert(before =~= all.take(start.len() + i));
        assert(pairs_view(entries@)[i as int] == (entries@[i as int].0@, entries@[i as int].1@));
        assert(all[start.len() + i] == (entries@[i as int].0@, entries@[i as int].1@));
        if entries[i].0.as_str().as_bytes().len() > 65535 {
            proof {
                assert(!names_ok(all)) by {
                    assert(name_bytes(all[start.len() + i].0) > 65535);
                }
            }
            return Err(ConvertError::InvalidRequest(text_with("entry name too long: ", &entries[i].0)));
        }
        proof {
            if packable(all) {
                assert forall|k: int| 0 <= k < before.len() implies (#[trigger] before[k]).0 != entries@[i as int].0@ by {
                    assert(before[k] == all[k]);
                    assert(all[k].0 != all[start.len() + i].0);
                }
                assert forall|k: int| 0 <= k < before.len() implies (#[trigger] before[k]).1.len() <= ZIP_ENTRY_LIMIT by {
                    assert(before[k] == all[k]);
                }
            }
        }
        match zip_start_entry(w, entries[i].0.as_str()) {
            Ok(()) => {},
            Err(z) => {
                return Err(error_of_fault(zip_fault(&z)));
            },
        }
        proof {
            if packable(all) {
                assert(all[start.len() + i].1.len() <= ZIP_ENTRY_LIMIT);
            }
        }
        match zip_write(w, entries[i].1.as_slice()) {
            Ok(()) => {},
            Err(z) => {
                return Err(error_of_fault(zip_fault(&z)));
            },
        }
        proof {
            assert(Seq::<u8>::empty() + entries@[i as int].1@ =~= entries@[i as int].1@);
        }
        i = i + 1;
        assert(zip_written(*w) =~= start + pairs_view(entries@).take(i as int));
    }
    assert(pairs_view(entries@).take(entries@.len() as int) =~= pairs_view(entries@));
    Ok(())
}

/// Packs the regular files among `sources` into a new ZIP container, flat, each
/// under its base name, deflated. Other paths are skipped. Two files with the
/// same base name, or a name over 65535 bytes, are refused as `InvalidRequest`.
/// The bytes returned read back as exactly the packed entries. The password is
/// not applied: the container is never encrypted.
pub fn create_zip(sources: &Vec<SourceFile>, password: &Option<String>) -> (r: Result<Vec<u8>, ConvertError>)
    ensures
        packable(entries_for(sources@)) ==> r is Ok,
        !names_ok(entries_for(sources@)) ==> (r matches Err(e) && e is InvalidRequest),
        r matches Ok(b) ==> zip_decoded(b@) == Some(entries_for(sources@)),
        r matches Ok(b) ==> zip_deflated(b@),
        r matches Err(e) ==> is_codec_error(e) || e is InvalidRequest,
{
    let entries = archive_entries(sources);
    match name_problem(&entries) {
        Some(m) => {
            return Err(ConvertError::InvalidRequest(m));
        },
        None => {},
    }
    let mut w = new_zip_builder();
    assert(Seq::<(Seq<char>, Seq<u8>)>::empty() + pairs_view(entries@) =~= pairs_view(entries@));
    write_zip_entries(&mut w, &entries)?;
    assert(zip_written(w) == entries_for(sources@));
    match zip_finish(w) {
        Ok(b) => Ok(b),
        Err(z) => Err(error_of_fault(zip_fault(&z))),
    }
}

/// Packing then extracting keeps contents: when a container decodes as the
/// entries packed from `sources`, an extraction of it writes every packed file
/// whose name is safe and not a directory name, under that name, with exactly
/// the bytes it was packed with.
pub proof fn lemma_pack_then_extract(sources: Seq<SourceFile>, bytes: Seq<u8>, root: Seq<char>, steps: Seq<ExtractStep>)
    requires
        zip_decoded(bytes) == Some(entries_for(sources)),
        plans(steps, root, zip_decoded(bytes)->Some_0),
    ensures
        steps.len() == entries_for(sources).len(),
        forall|i: int| 0 <= i < steps.len() && is_safe_relative(entries_for(sources)[i].0)
            && !is_dir_name(entries_for(sources)[i].0) ==> #[trigger] steps[i]@ == StepView::WriteFile(
                join(root, entries_for(sources)[i].0),
                entries_for(sources)[i].1,
            ),
{
}

proof fn lemma_entries_all_files(s: Seq<SourceFile>)
    requires
        forall|i: int| 0 <= i < s.len() ==> (#[trigger] s[i]).content is Some,
    ensures
        entries_for(s) == Seq::new(s.len(), |i: int| (entry_name_for(s[i].path@), s[i].content->Some_0@)),
    decreases s.len(),
{
    if s.len() == 0 {
        assert(entries_for(s) =~= Seq::new(s.len(), |i: int| (entry_name_for(s[i].path@), s[i].content->Some_0@)));
    } else {
        let d = s.drop_last();
        assert forall|i: int| 0 <= i < d.len() implies (#[trigger] d[i]).content is Some by {
            assert(d[i] == s[i]);
        }
        lemma_entries_all_files(d);
        lemma_entries_skip_non_files(d, s.last());
        assert(d.push(s.last()) =~= s);
        assert(entries_for(s) =~= Seq::new(s.len(), |i: int| (entry_name_for(s[i].path@), s[i].content->Some_0@)));
    }
}

/// Extracting, packing the extracted files again, and extracting that keeps
/// every file: when a container's entries have plain, safe names and are
/// extracted under `root` as `steps`, the files those steps write are packed as
/// `sources`, and the packed bytes are extracted under `root2` as `steps2`,
/// then each entry is written again under its own name with its own bytes.
pub proof fn lemma_extract_repack_extract(
    es: EntryList,
    root: Seq<char>,
    steps: Seq<ExtractStep>,
    sources: Seq<SourceFile>,
    bytes: Seq<u8>,
    root2: Seq<char>,
    steps2: Seq<ExtractStep>,
)
    requires
        plans(steps, root, es),
        forall|i: int| 0 <= i < es.len() ==> is_plain_name((#[trigger] es[i]).0) && is_safe_relative(es[i].0),
        sources.len() == es.len(),
        forall|i: int| 0 <= i < es.len() ==> (#[trigger] sources[i]).content is Some
            && steps[i]@ == StepView::WriteFile(sources[i].path@, sources[i].content->Some_0@),
        zip_decoded(bytes) == Some(entries_for(sources)),
        plans(steps2, root2, zip_decoded(bytes)->Some_0),
    ensures
        steps2.len() == es.len(),
        forall|i: int| 0 <= i < es.len() ==> #[trigger] steps2[i]@ == StepView::WriteFile(join(root2, es[i].0), es[i].1),
{
    lemma_entries_all_files(sources);
    assert forall|i: int| 0 <= i < es.len() implies #[trigger] steps2[i]@ == StepView::WriteFile(join(root2, es[i].0), es[i].1) by {
        let n = es[i].0;
        assert(steps[i]@ == step_for(root, n, es[i].1));
        assert(!is_dir_name(n)) by {
            assert(!is_sep(n[n.len() - 1]));
        }
        assert(sources[i].path@ == join(root, n));
        lemma_file_name_of_join(root, n);
        assert(entry_name_for(sources[i].path@) == n);
        assert(entries_for(sources)[i] == (n, es[i].1));
        assert(steps2[i]@ == step_for(root2, n, es[i].1));
    }
}

/// Creation of 7z containers: no engine exists, so it always fails.
pub fn create_7z(sources: &Vec<SourceFile>, password: &Option<String>) -> (r: Result<Vec<u8>, ConvertError>)
    ensures
        r matches Err(e) && e is NotImplemented,
{
    Err(ConvertError::NotImplemented(String::from_str("7z creation is not implemented")))
}

/// What an archive creation produced: where to store the container, its bytes,
/// and the result to report once it is stored.
#[derive(Debug, Clone)]
pub struct CreatePlan {
    pub output_path: String,
    pub archive: Vec<u8>,
    pub result: ConvertResult,
}

pub open spec fn ends_with(s: Seq<char>, suf: Seq<char>) -> bool {
    s.len() >= suf.len() && s.subrange(s.len() - suf.len(), s.len() as int) == suf
}

pub open spec fn zip_word() -> Seq<char> {
    seq!['z', 'i', 'p']
}

pub open spec fn seven_z_word() -> Seq<char> {
    seq!['7', 'z']
}

/// The container's file name: `name`, with `.<ext>` appended unless already there.
pub open spec fn archive_file_name(name: Seq<char>, ext: Seq<char>) -> Seq<char> {
    let suffix = seq!['.'] + ext;
    if ends_with(name, suffix) { name } else { name + suffix }
}

/// The report of a finished creation: how many files were packed and, when a
/// password was given, that it was not applied.
pub open spec fn create_message(packed: nat, password_given: bool) -> Seq<char> {
    let base = seq!['C', 'o', 'm', 'p', 'r', 'e', 's', 's', 'e', 'd', ' '] + decimal(packed)
        + seq![' ', 'f', 'i', 'l', 'e', '(', 's', ')'];
    if password_given {
        base + password_notice()
    } else {
        base
    }
}

pub open spec fn password_notice() -> Seq<char> {
    seq![';', ' ', 'n', 'o', 't', ' ', 'e', 'n', 'c', 'r', 'y', 'p', 't', 'e', 'd', ':', ' ',
        'p', 'a', 's', 's', 'w', 'o', 'r', 'd', 's', ' ', 'a', 'r', 'e', ' ', 'n', 'o', 't', ' ',
        's', 'u', 'p', 'p', 'o', 'r', 't', 'e', 'd']
}

fn same_text(a: &Vec<char>, b: &Vec<char>) -> (r: bool)
    ensures
        r == (a@ == b@),
{
    let r = spells_exec(a, b, b);
    proof {
        if r {
            assert(a@ =~= b@);
        }
    }
    r
}

fn ends_with_exec(s: &Vec<char>, suf: &Vec<char>) -> (r: bool)
    ensures
        r == ends_with(s@, suf@),
{
    if s.len() < suf.len() {
        return false;
    }
    let off = s.len() - suf.len();
    let mut i: usize = 0;
    while i < suf.len()
        invariant
            off + suf@.len() == s@.len(),
            s@.len() <= usize::MAX,
            i <= suf@.len(),
            forall|k: int| 0 <= k < i ==> s@[off + k] == suf@[k],
        decreases suf@.len() - i,
    {
        if s[off + i] != suf[i] {
            proof {
                assert(s@.subrange(off as int, s@.len() as int)[i as int] == s@[off + i]);
            }
            return false;
        }
        i = i + 1;
    }
    proof {
        assert(s@.subrange(off as int, s@.len() as int) =~= suf@);
    }
    true
}

/// The container's file name (see `archive_file_name`).
pub fn archive_file_name_exec(name: &str, ext: &Vec<char>) -> (r: Vec<char>)
    ensures
        r@ == archive_file_name(name@, ext@),
{
    let mut suffix = vec!['.'];
    push_all(&mut suffix, ext);
    let n = chars_of(name);
    if ends_with_exec(&n, &suffix) {
        assert(suffix@ =~= seq!['.'] + ext@);
        n
    } else {
        let mut out = n.clone();
        push_all(&mut out, &suffix);
        assert(suffix@ =~= seq!['.'] + ext@);
        out
    }
}

fn create_message_exec(packed: usize, password_given: bool) -> (r: String)
    ensures
        r@ == create_message(packed as nat, password_given),
{
    let mut m = chars_of("Compressed ");
    push_decimal(&mut m, packed as u64);
    let tail = chars_of(" file(s)");
    push_all(&mut m, &tail);
    if password_given {
        let note = chars_of("; not encrypted: passwords are not supported");
        push_all(&mut m, &note);
    }
    proof {
        reveal_strlit("Compressed ");
        reveal_strlit(" file(s)");
        reveal_strlit("; not encrypted: passwords are not supported");
        assert(m@ =~= create_message(packed as nat, password_given));
    }
    string_of(&m)
}

/// Packs `sources` into a container named after `output_name` in the Archives
/// folder of day `today`. `options.format` is `zip` or `7z`; the extension is
/// appended to the name unless present.
pub fn create(config: &AppConfig, sources: &Vec<SourceFile>, output_name: &str, options: &ArchiveOptions, today: CalendarDate) -> (r: Result<CreatePlan, ConvertError>)
    ensures
        options.format@ == zip_word() ==> {
            &&& packable(entries_for(sources@)) ==> r is Ok
            &&& !names_ok(entries_for(sources@)) ==> (r matches Err(e) && e is InvalidRequest)
            &&& match r {
                Ok(p) => {
                    &&& p.output_path@ == join(output_dir(*config, Category::Archives, today), archive_file_name(output_name@, zip_word()))
                    &&& zip_decoded(p.archive@) == Some(entries_for(sources@))
                    &&& zip_deflated(p.archive@)
                    &&& p.result.success
                    &&& p.result.output_files@.len() == 1
                    &&& p.result.output_files@[0]@ == p.output_path@
                    &&& p.result.output_folder@ == output_dir(*config, Category::Archives, today)
                    &&& p.result.message@ == create_message(entries_for(sources@).len(), options.password is Some)
                },
                Err(e) => is_codec_error(e) || e is InvalidRequest,
            }
        },
        options.format@ == seven_z_word() ==> (r matches Err(e) && e is NotImplemented),
        options.format@ != zip_word() && options.format@ != seven_z_word() ==> (r matches Err(ConvertError::UnsupportedFormat(t))
            && t@ == "Unsupported format: "@ + options.format@),
{
    let f = chars_of(options.format.as_str());
    let zw = vec!['z', 'i', 'p'];
    let sw = vec!['7', 'z'];
    assert(zw@ =~= zip_word());
    assert(sw@ =~= seven_z_word());
    if same_text(&f, &zw) {
        let bytes = create_zip(sources, &options.password)?;
        let folder = get_output_path(config, Category::Archives, today);
        let fc = chars_of(folder.as_str());
        let file = archive_file_name_exec(output_name, &zw);
        let out_path = string_of(&join_exec(&fc, &file));
        let entries = archive_entries(sources);
        let message = create_message_exec(entries.len(), options.password.is_some());
        let mut files: Vec<String> = Vec::new();
        files.push(out_path.clone());
        let result = ConvertResult { success: true, output_files: files, output_folder: folder, message };
        Ok(CreatePlan { output_path: out_path, archive: bytes, result })
    } else if same_text(&f, &sw) {
        create_7z(sources, &options.password)?;
        Err(ConvertError::NotImplemented(String::from_str("7z creation is not implemented")))
    } else {
        Err(ConvertError::UnsupportedFormat(text_with("Unsupported format: ", &options.format)))
    }
}

} // verus!
