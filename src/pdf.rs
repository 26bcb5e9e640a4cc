//! Document operations. Rendering, merging and splitting are done by an
//! external engine; this module decides the files each operation produces and
//! the result it reports.
use vstd::prelude::*;
use crate::archive::{archive_file_name, archive_file_name_exec, path_stem_or};
use crate::config::{AppConfig, CalendarDate, Category, output_dir, get_output_path};
use crate::paths::{file_name_exec, join, join_exec, split_name};
use crate::result::{ConvertOptions, ConvertResult};
use crate::text::{strings_view, chars_of, decimal, push_all, push_decimal, string_of};

verus! {

pub open spec fn output_default() -> Seq<char> {
    seq!['o', 'u', 't', 'p', 'u', 't']
}

/// `<stem>_<page>.<ext>`.
pub open spec fn page_file(stem: Seq<char>, page: nat, ext: Seq<char>) -> Seq<char> {
    stem + seq!['_'] + decimal(page) + seq!['.'] + ext
}

/// The files rendered from one document: one per page, in page order.
pub open spec fn document_pages(folder: Seq<char>, path: Seq<char>, pages: Seq<u32>, ext: Seq<char>) -> Seq<Seq<char>> {
    Seq::new(pages.len(), |j: int| join(folder, page_file(path_stem_or(path, output_default()), pages[j] as nat, ext)))
}

/// The files rendered from `paths`, document by document.
pub open spec fn rendered_files(folder: Seq<char>, paths: Seq<Seq<char>>, pages: Seq<u32>, ext: Seq<char>) -> Seq<Seq<char>>
    decreases paths.len(),
{
    if paths.len() == 0 {
        Seq::empty()
    } else {
        rendered_files(folder, paths.drop_last(), pages, ext) + document_pages(folder, paths.last(), pages, ext)
    }
}

/// The pages to render: those asked for, or the first page.
pub open spec fn pages_or_first(pages: Option<Vec<u32>>) -> Seq<u32> {
    match pages {
        Some(p) => p@,
        None => seq![1u32],
    }
}

fn stem_of(path: &String) -> (r: Vec<char>)
    ensures
        r@ == path_stem_or(path@, output_default()),
{
    match file_name_exec(&chars_of(path.as_str())) {
        Some(n) => split_name(&n).0,
        None => {
            let d = vec!['o', 'u', 't', 'p', 'u', 't'];
            assert(d@ =~= output_default());
            d
        },
    }
}

fn page_file_exec(stem: &Vec<char>, page: u32, ext: &Vec<char>) -> (r: Vec<char>)
    ensures
        r@ == page_file(stem@, page as nat, ext@),
{
    let mut v = stem.clone();
    v.push('_');
    push_decimal(&mut v, page as u64);
    v.push('.');
    push_all(&mut v, ext);
    assert(v@ =~= page_file(stem@, page as nat, ext@));
    v
}

fn render_list(folder: &Vec<char>, paths: &Vec<String>, pages: &Vec<u32>, ext: &Vec<char>) -> (r: Vec<String>)
    ensures
        strings_view(r@) == rendered_files(folder@, strings_view(paths@), pages@, ext@),
{
    let mut out: Vec<String> = Vec::new();
    let mut i: usize = 0;
    while i < paths.len()
        invariant
            i <= paths@.len(),
            strings_view(out@) == rendered_files(folder@, strings_view(paths@.take(i as int)), pages@, ext@),
        decreases paths@.len() - i,
    {
        let stem = stem_of(&paths[i]);
        let ghost before = strings_view(out@);
        let mut j: usize = 0;
        while j < pages.len()
            invariant
                i < paths@.len(),
                j <= pages@.len(),
                stem@ == path_stem_or(paths@[i as int]@, output_default()),
                strings_view(out@) == before + document_pages(folder@, paths@[i as int]@, pages@, ext@).take(j as int),
            decreases pages@.len() - j,
        {
            let f = page_file_exec(&stem, pages[j], ext);
            let item = string_of(&join_exec(folder, &f));
            let ghost prior = out@;
            let ghost dp = document_pages(folder@, paths@[i as int]@, pages@, ext@);
            out.push(item);
            proof {
                assert(out@ == prior.push(item));
                assert(strings_view(out@) =~= strings_view(prior).push(item@));
                assert(item@ == dp[j as int]);
                assert(dp.take(j + 1) =~= dp.take(j as int).push(dp[j as int]));
            }
            j = j + 1;
            assert(strings_view(out@) =~= before + dp.take(j as int));
        }
        proof {
            let ps = strings_view(paths@.take(i + 1));
            assert(ps.drop_last() =~= strings_view(paths@.take(i as int)));
            assert(ps.last() == paths@[i as int]@);
            assert(document_pages(folder@, paths@[i as int]@, pages@, ext@).take(pages@.len() as int)
                =~= document_pages(folder@, paths@[i as int]@, pages@, ext@));
        }
        i = i + 1;
    }
    assert(paths@.take(paths@.len() as int) =~= paths@);
    out
}

fn done(folder: String, files: Vec<String>, message: &str) -> (r: ConvertResult)
    ensures
        r.success,
        r.output_folder == folder,
        r.output_files == files,
        r.message@ == message@,
{
    ConvertResult { success: true, output_files: files, output_folder: folder, message: string_of(&chars_of(message)) }
}

/// Plans rendering the pages `options.pages` (the first page when none are
/// given) of each document as `options.format` images.
pub fn convert_to_images(config: &AppConfig, paths: &Vec<String>, options: &ConvertOptions, today: CalendarDate) -> (r: ConvertResult)
    ensures
        r.success,
        r.output_folder@ == output_dir(*config, Category::PdfImages, today),
        strings_view(r.output_files@) == rendered_files(
            output_dir(*config, Category::PdfImages, today),
            strings_view(paths@),
            pages_or_first(options.pages),
            options.format@,
        ),
{
    let folder = get_output_path(config, Category::PdfImages, today);
    let pages = match &options.pages {
        Some(p) => p.clone(),
        None => vec![1u32],
    };
    assert(pages@ =~= pages_or_first(options.pages));
    let files = render_list(&chars_of(folder.as_str()), paths, &pages, &chars_of(options.format.as_str()));
    done(folder, files, "Conversion complete")
}

/// Plans rendering the given pages (the first page when none are given) of
/// each document as SVG.
pub fn convert_to_svg(config: &AppConfig, paths: &Vec<String>, pages: Option<Vec<u32>>, today: CalendarDate) -> (r: ConvertResult)
    ensures
        r.success,
        r.output_folder@ == output_dir(*config, Category::PdfImages, today),
        strings_view(r.output_files@) == rendered_files(
            output_dir(*config, Category::PdfImages, today),
            strings_view(paths@),
            pages_or_first(pages),
            seq!['s', 'v', 'g'],
        ),
{
    let folder = get_output_path(config, Category::PdfImages, today);
    let list = match &pages {
        Some(p) => p.clone(),
        None => vec![1u32],
    };
    assert(list@ =~= pages_or_first(pages));
    let svg = vec!['s', 'v', 'g'];
    let files = render_list(&chars_of(folder.as_str()), paths, &list, &svg);
    assert(svg@ =~= seq!['s', 'v', 'g']);
    done(folder, files, "SVG conversion complete")
}

pub open spec fn pdf_word() -> Seq<char> {
    seq!['p', 'd', 'f']
}

/// The single document an operation named `name` writes on day `d`.
pub open spec fn named_pdf(c: AppConfig, name: Seq<char>, d: CalendarDate) -> Seq<char> {
    join(output_dir(c, Category::PdfOperations, d), archive_file_name(name, pdf_word()))
}

fn named_pdf_exec(folder: &String, name: &str) -> (r: String)
    ensures
        r@ == join(folder@, archive_file_name(name@, pdf_word())),
{
    let pdf = vec!['p', 'd', 'f'];
    assert(pdf@ =~= pdf_word());
    string_of(&join_exec(&chars_of(folder.as_str()), &archive_file_name_exec(name, &pdf)))
}

/// Plans merging `paths`, in order, into one document named `output_name`.
pub fn merge(config: &AppConfig, paths: &Vec<String>, output_name: &str, today: CalendarDate) -> (r: ConvertResult)
    ensures
        r.success,
        r.output_folder@ == output_dir(*config, Category::PdfOperations, today),
        strings_view(r.output_files@) == seq![named_pdf(*config, output_name@, today)],
{
    let folder = get_output_path(config, Category::PdfOperations, today);
    let mut files: Vec<String> = Vec::new();
    files.push(named_pdf_exec(&folder, output_name));
    assert(strings_view(files@) =~= seq![named_pdf(*config, output_name@, today)]);
    done(folder, files, "Merge complete")
}

/// Plans extracting `pages` of a document into one named `output_name`.
pub fn extract_pages(config: &AppConfig, path: &str, pages: &Vec<u32>, output_name: &str, today: CalendarDate) -> (r: ConvertResult)
    ensures
        r.success,
        r.output_folder@ == output_dir(*config, Category::PdfOperations, today),
        strings_view(r.output_files@) == seq![named_pdf(*config, output_name@, today)],
{
    let folder = get_output_path(config, Category::PdfOperations, today);
    let mut files: Vec<String> = Vec::new();
    files.push(named_pdf_exec(&folder, output_name));
    assert(strings_view(files@) =~= seq![named_pdf(*config, output_name@, today)]);
    done(folder, files, "Page extraction complete")
}

/// The first page of part `i` of a split at `points`.
pub open spec fn part_start(points: Seq<u32>, i: int) -> nat {
    if i == 0 { 1 } else { (points[i - 1] + 1) as nat }
}

/// `<stem>_part<i+1>_p<first>-<last>.pdf`.
pub open spec fn part_file(stem: Seq<char>, i: int, first: nat, last: nat) -> Seq<char> {
    stem + "_part"@ + decimal((i + 1) as nat) + "_p"@ + decimal(first) + seq!['-'] + decimal(last) + ".pdf"@
}

/// The parts a split writes: one per split point, each ending at its point.
pub open spec fn split_files(folder: Seq<char>, stem: Seq<char>, points: Seq<u32>) -> Seq<Seq<char>> {
    Seq::new(points.len(), |i: int| join(folder, part_file(stem, i, part_start(points, i), points[i] as nat)))
}

/// Plans splitting a document after each page of `split_points`.
pub fn split(config: &AppConfig, path: &str, split_points: &Vec<u32>, today: CalendarDate) -> (r: ConvertResult)
    ensures
        r.success,
        r.output_folder@ == output_dir(*config, Category::PdfOperations, today),
        strings_view(r.output_files@) == split_files(
            output_dir(*config, Category::PdfOperations, today),
            path_stem_or(path@, output_default()),
            split_points@,
        ),
{
    let folder = get_output_path(config, Category::PdfOperations, today);
    let fc = chars_of(folder.as_str());
    let stem = stem_of(&string_of(&chars_of(path)));
    let mut files: Vec<String> = Vec::new();
    let mut prev: u64 = 1;
    let mut i: usize = 0;
    while i < split_points.len()
        invariant
            i <= split_points@.len(),
            prev as nat == part_start(split_points@, i as int),
            files@.len() == i,
            forall|k: int| 0 <= k < i ==> #[trigger] files@[k]@ == split_files(fc@, stem@, split_points@)[k],
        decreases split_points@.len() - i,
    {
        let point = split_points[i];
        let mut v = stem.clone();
        push_all(&mut v, &chars_of("_part"));
        push_decimal(&mut v, i as u64 + 1);
        push_all(&mut v, &chars_of("_p"));
        push_decimal(&mut v, prev);
        v.push('-');
        push_decimal(&mut v, point as u64);
        push_all(&mut v, &chars_of(".pdf"));
        assert(v@ =~= part_file(stem@, i as int, prev as nat, point as nat));
        files.push(string_of(&join_exec(&fc, &v)));
        prev = point as u64 + 1;
        i = i + 1;
    }
    assert(strings_view(files@) =~= split_files(fc@, stem@, split_points@));
    done(folder, files, "Split complete")
}

} // verus!
