use fluxforge::config::{AppConfig, CalendarDate};
use fluxforge::pdf::{convert_to_images, convert_to_svg, extract_pages, merge, split};
use fluxforge::result::ConvertOptions;

fn config() -> AppConfig {
    AppConfig {
        export_folder: "/d".to_string(),
        export_folder_name: "FF".to_string(),
        theme: "dark".to_string(),
        default_pdf_dpi: 150,
        auto_create_date_folders: false,
        cloud_sync_folder: None,
    }
}

fn day() -> CalendarDate {
    CalendarDate { year: 2024, month: 5, day: 6 }
}

#[test]
fn image_names_per_page() {
    let paths = vec!["/in/a.pdf".to_string(), "b.pdf".to_string()];
    let opts = ConvertOptions { format: "png".to_string(), dpi: 150, pages: Some(vec![2, 5]) };
    let r = convert_to_images(&config(), &paths, &opts, day());
    assert!(r.success);
    assert_eq!(r.output_folder, "/d/FF/PDF_Images");
    assert_eq!(r.output_files, vec![
        "/d/FF/PDF_Images/a_2.png",
        "/d/FF/PDF_Images/a_5.png",
        "/d/FF/PDF_Images/b_2.png",
        "/d/FF/PDF_Images/b_5.png",
    ]);
    let opts = ConvertOptions { format: "jpg".to_string(), dpi: 72, pages: None };
    assert_eq!(convert_to_images(&config(), &paths[..1].to_vec(), &opts, day()).output_files, vec!["/d/FF/PDF_Images/a_1.jpg"]);
}

#[test]
fn svg_names() {
    let r = convert_to_svg(&config(), &vec!["x/doc.pdf".to_string()], None, day());
    assert_eq!(r.output_files, vec!["/d/FF/PDF_Images/doc_1.svg"]);
}

#[test]
fn merge_and_extract_names() {
    let r = merge(&config(), &vec!["a.pdf".to_string(), "b.pdf".to_string()], "joined", day());
    assert_eq!(r.output_files, vec!["/d/FF/PDF_Operations/joined.pdf"]);
    assert_eq!(r.output_folder, "/d/FF/PDF_Operations");
    let r = extract_pages(&config(), "a.pdf", &vec![1, 3], "pick.pdf", day());
    assert_eq!(r.output_files, vec!["/d/FF/PDF_Operations/pick.pdf"]);
}

#[test]
fn split_part_names() {
    let r = split(&config(), "/in/book.pdf", &vec![3, 7], day());
    assert_eq!(r.output_files, vec![
        "/d/FF/PDF_Operations/book_part1_p1-3.pdf",
        "/d/FF/PDF_Operations/book_part2_p4-7.pdf",
    ]);
    assert!(split(&config(), "/in/book.pdf", &vec![], day()).output_files.is_empty());
}
