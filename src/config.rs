//! Export configuration, output categories, and the output path resolver.
use vstd::prelude::*;
use crate::paths::{join, join_exec};
use crate::text::{chars_of, padded_decimal, push_padded_decimal, string_of};

verus! {

/// User settings that decide where exports are written.
#[derive(Debug, Clone)]
pub struct AppConfig {
    pub export_folder: String,
    pub export_folder_name: String,
    pub theme: String,
    pub default_pdf_dpi: u32,
    pub auto_create_date_folders: bool,
    pub cloud_sync_folder: Option<String>,
}

impl Default for AppConfig {
    fn default() -> (r: AppConfig)
        ensures
            r.export_folder@ == Seq::<char>::empty(),
            r.export_folder_name@ == seq!['F', 'l', 'u', 'x', 'F', 'o', 'r', 'g', 'e'],
            r.theme@ == seq!['d', 'a', 'r', 'k'],
            r.default_pdf_dpi == 150,
            r.auto_create_date_folders,
            r.cloud_sync_folder is None,
    {
        let r = AppConfig {
            export_folder: String::new(),
            export_folder_name: String::from_str("FluxForge"),
            theme: String::from_str("dark"),
            default_pdf_dpi: 150,
            auto_create_date_folders: true,
            cloud_sync_folder: None,
        };
        proof {
            reveal_strlit("FluxForge");
            reveal_strlit("dark");
            assert(r.export_folder_name@ =~= seq!['F', 'l', 'u', 'x', 'F', 'o', 'r', 'g', 'e']);
            assert(r.theme@ =~= seq!['d', 'a', 'r', 'k']);
        }
        r
    }
}

/// The closed set of output domains; each has one subdirectory.
#[derive(Debug, Clone, Copy, PartialEq, Eq, Structural)]
pub enum Category {
    PdfImages,
    PdfOperations,
    Archives,
    Gif,
}

pub open spec fn category_folder(c: Category) -> Seq<char> {
    match c {
        Category::PdfImages => seq!['P', 'D', 'F', '_', 'I', 'm', 'a', 'g', 'e', 's'],
        Category::PdfOperations => seq!['P', 'D', 'F', '_', 'O', 'p', 'e', 'r', 'a', 't', 'i', 'o', 'n', 's'],
        Category::Archives => seq!['A', 'r', 'c', 'h', 'i', 'v', 'e', 's'],
        Category::Gif => seq!['G', 'I', 'F'],
    }
}

/// Distinct categories have distinct folders.
pub proof fn lemma_category_folders_distinct(a: Category, b: Category)
    requires
        a != b,
    ensures
        category_folder(a) != category_folder(b),
{
    let fa = category_folder(a);
    let fb = category_folder(b);
    if fa.len() == fb.len() {
        assert(fa[4] != fb[4]);
    }
}

impl Category {
    /// Every category, in the order their folders are created.
    pub fn all() -> (r: Vec<Category>)
        ensures
            r@ == seq![Category::PdfImages, Category::PdfOperations, Category::Archives, Category::Gif],
    {
        let r = vec![Category::PdfImages, Category::PdfOperations, Category::Archives, Category::Gif];
        proof {
            assert(r@ =~= seq![Category::PdfImages, Category::PdfOperations, Category::Archives, Category::Gif]);
        }
        r
    }

    /// The subdirectory name of this category.
    pub fn folder_name(&self) -> (r: String)
        ensures
            r@ == category_folder(*self),
    {
        match self {
            Category::PdfImages => {
                proof { reveal_strlit("PDF_Images"); }
                let r = String::from_str("PDF_Images");
                assert(r@ =~= category_folder(*self));
                r
            },
            Category::PdfOperations => {
                proof { reveal_strlit("PDF_Operations"); }
                let r = String::from_str("PDF_Operations");
                assert(r@ =~= category_folder(*self));
                r
            },
            Category::Archives => {
                proof { reveal_strlit("Archives"); }
                let r = String::from_str("Archives");
                assert(r@ =~= category_folder(*self));
                r
            },
            Category::Gif => {
                proof { reveal_strlit("GIF"); }
                let r = String::from_str("GIF");
                assert(r@ =~= category_folder(*self));
                r
            },
        }
    }
}

/// A local calendar date.
#[derive(Debug, Clone, Copy, PartialEq, Eq, Structural)]
pub struct CalendarDate {
    pub year: i32,
    pub month: u32,
    pub day: u32,
}

impl CalendarDate {
    pub open spec fn wf(&self) -> bool {
        1 <= self.month <= 12 && 1 <= self.day <= 31
    }
}

/// The year as four zero-padded digits; outside 0..=9999 with a leading sign.
pub open spec fn year_text(y: int) -> Seq<char> {
    if 0 <= y <= 9999 {
        padded_decimal(y as nat, 4)
    } else if y > 9999 {
        seq!['+'] + padded_decimal(y as nat, 4)
    } else {
        seq!['-'] + padded_decimal((-y) as nat, 4)
    }
}

/// The `YYYY-MM-DD` name of a date folder.
pub open spec fn date_text(d: CalendarDate) -> Seq<char> {
    year_text(d.year as int) + seq!['-'] + padded_decimal(d.month as nat, 2) + seq!['-']
        + padded_decimal(d.day as nat, 2)
}

/// Renders `d` as `YYYY-MM-DD`.
pub fn date_folder_name(d: CalendarDate) -> (r: String)
    ensures
        r@ == date_text(d),
{
    let mut out: Vec<char> = Vec::new();
    let y = d.year;
    if y > 9999 {
        out.push('+');
        push_padded_decimal(&mut out, y as u64, 4);
    } else if y < 0 {
        out.push('-');
        let a: u64 = (0i64 - y as i64) as u64;
        push_padded_decimal(&mut out, a, 4);
    } else {
        push_padded_decimal(&mut out, y as u64, 4);
    }
    out.push('-');
    push_padded_decimal(&mut out, d.month as u64, 2);
    out.push('-');
    push_padded_decimal(&mut out, d.day as u64, 2);
    proof {
        assert(out@ =~= date_text(d));
    }
    string_of(&out)
}

/// `<export_folder>/<export_folder_name>`.
pub open spec fn export_base(c: AppConfig) -> Seq<char> {
    join(c.export_folder@, c.export_folder_name@)
}

/// `<export_folder>/<export_folder_name>/<category>`.
pub open spec fn category_dir(c: AppConfig, cat: Category) -> Seq<char> {
    join(export_base(c), category_folder(cat))
}

/// The directory an operation of `cat` writes to on day `d`.
pub open spec fn output_dir(c: AppConfig, cat: Category, d: CalendarDate) -> Seq<char> {
    if c.auto_create_date_folders {
        join(category_dir(c, cat), date_text(d))
    } else {
        category_dir(c, cat)
    }
}

/// The export root that holds every category folder.
pub fn export_base_path(config: &AppConfig) -> (r: String)
    ensures
        r@ == export_base(*config),
{
    let b = chars_of(config.export_folder.as_str());
    let n = chars_of(config.export_folder_name.as_str());
    string_of(&join_exec(&b, &n))
}

/// The folder of category `cat`, without a date folder.
pub fn category_path(config: &AppConfig, cat: Category) -> (r: String)
    ensures
        r@ == category_dir(*config, cat),
{
    let b = chars_of(export_base_path(config).as_str());
    let f = chars_of(cat.folder_name().as_str());
    string_of(&join_exec(&b, &f))
}

/// The output directory of `category` on day `today`, the caller's local date;
/// the caller creates it.
pub fn get_output_path(config: &AppConfig, category: Category, today: CalendarDate) -> (r: String)
    ensures
        r@ == output_dir(*config, category, today),
{
    let base = category_path(config, category);
    if config.auto_create_date_folders {
        let b = chars_of(base.as_str());
        let d = chars_of(date_folder_name(today).as_str());
        string_of(&join_exec(&b, &d))
    } else {
        base
    }
}

/// Resolving twice with the same configuration on the same calendar day names
/// the same directory.
pub proof fn lemma_resolve_same_day(c: AppConfig, cat: Category, d1: CalendarDate, d2: CalendarDate)
    requires
        d1.year == d2.year,
        d1.month == d2.month,
        d1.day == d2.day,
    ensures
        output_dir(c, cat, d1) == output_dir(c, cat, d2),
{
}

/// Every output directory lies inside its category folder, which lies inside
/// the export root.
pub proof fn lemma_output_under_category(c: AppConfig, cat: Category, d: CalendarDate)
    ensures
        output_dir(c, cat, d).subrange(0, category_dir(c, cat).len() as int) == category_dir(c, cat),
        category_dir(c, cat).subrange(0, export_base(c).len() as int) == export_base(c),
{
    let cd = category_dir(c, cat);
    let b = export_base(c);
    assert(cd.subrange(0, b.len() as int) =~= b);
    if c.auto_create_date_folders {
        assert(output_dir(c, cat, d).subrange(0, cd.len() as int) =~= cd);
    } else {
        assert(output_dir(c, cat, d).subrange(0, cd.len() as int) =~= cd);
    }
}

} // verus!
