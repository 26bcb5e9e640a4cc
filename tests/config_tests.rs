use fluxforge::config::{
    category_path, date_folder_name, export_base_path, get_output_path, AppConfig,
    CalendarDate, Category,
};
use fluxforge::paths::{file_name_exec, split_name};

fn config(dated: bool) -> AppConfig {
    AppConfig {
        export_folder: "/data/".to_string(),
        export_folder_name: "Exports".to_string(),
        theme: "light".to_string(),
        default_pdf_dpi: 300,
        auto_create_date_folders: dated,
        cloud_sync_folder: None,
    }
}

#[test]
fn default_config() {
    let c = AppConfig::default();
    assert_eq!(c.export_folder, "");
    assert_eq!(c.export_folder_name, "FluxForge");
    assert_eq!(c.theme, "dark");
    assert_eq!(c.default_pdf_dpi, 150);
    assert!(c.auto_create_date_folders);
    assert!(c.cloud_sync_folder.is_none());
}

#[test]
fn paths_compose() {
    assert_eq!(export_base_path(&config(true)), "/data/Exports");
    assert_eq!(category_path(&config(true), Category::Gif), "/data/Exports/GIF");
    assert_eq!(category_path(&config(true), Category::PdfImages), "/data/Exports/PDF_Images");
    let d = CalendarDate { year: 2024, month: 1, day: 9 };
    assert_eq!(get_output_path(&config(true), Category::Archives, d), "/data/Exports/Archives/2024-01-09");
    assert_eq!(get_output_path(&config(false), Category::Archives, d), "/data/Exports/Archives");
    let mut empty = config(false);
    empty.export_folder = String::new();
    assert_eq!(get_output_path(&empty, Category::PdfOperations, d), "Exports/PDF_Operations");
}

#[test]
fn same_day_resolves_to_same_directory() {
    let d = CalendarDate { year: 2023, month: 11, day: 30 };
    let a = get_output_path(&config(true), Category::Gif, d);
    let b = get_output_path(&config(true), Category::Gif, d);
    assert_eq!(a, b);
    let x = get_output_path(&config(false), Category::Gif, d);
    assert_eq!(x, "/data/Exports/GIF");
}

#[test]
fn date_names() {
    assert_eq!(date_folder_name(CalendarDate { year: 2024, month: 12, day: 31 }), "2024-12-31");
    assert_eq!(date_folder_name(CalendarDate { year: 7, month: 2, day: 3 }), "0007-02-03");
    assert_eq!(date_folder_name(CalendarDate { year: 12345, month: 1, day: 1 }), "+12345-01-01");
    assert_eq!(date_folder_name(CalendarDate { year: -44, month: 3, day: 15 }), "-0044-03-15");
}

#[test]
fn categories() {
    let names: Vec<String> = Category::all().iter().map(|c| c.folder_name()).collect();
    assert_eq!(names, vec!["PDF_Images", "PDF_Operations", "Archives", "GIF"]);
}

#[test]
fn file_names_and_stems() {
    let v = |s: &str| -> Vec<char> { s.chars().collect() };
    let s = |c: Vec<char>| -> String { c.into_iter().collect() };
    assert_eq!(file_name_exec(&v("/a/b/c.tar.gz")).map(s), Some("c.tar.gz".to_string()));
    assert_eq!(file_name_exec(&v("dir/")).map(s), Some("dir".to_string()));
    assert_eq!(file_name_exec(&v("a/..")), None);
    assert_eq!(file_name_exec(&v("")), None);
    let (stem, ext) = split_name(&v("c.tar.gz"));
    assert_eq!((s(stem), ext.map(s)), ("c.tar".to_string(), Some("gz".to_string())));
    let (stem, ext) = split_name(&v(".hidden"));
    assert_eq!((s(stem), ext), (".hidden".to_string(), None));
}
