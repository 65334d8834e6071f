//! Listing filters, listing order, and image records.

use storynode_core::images::{
    classify_image_name, image_data_url, make_image_resource, sort_image_resources, ImageKind,
    ImageResource,
};
use storynode_core::listing::{filter_story_entries, sort_file_entries, FileInfo};

fn entry(name: &str, is_directory: bool) -> FileInfo {
    FileInfo {
        name: String::from(name),
        path: format!("/tmp/stories/{}", name),
        is_directory,
    }
}

#[test]
fn filter_keeps_directories_and_story_files() {
    let entries = vec![
        entry("assets", true),
        entry("a.story.json", false),
        entry("b.json", false),
        entry("c.txt", false),
        entry("readme.md", false),
    ];
    let kept = filter_story_entries(&entries);
    let names: Vec<&str> = kept.iter().map(|e| e.name.as_str()).collect();
    assert_eq!(names, vec!["assets", "a.story.json", "b.json"]);
}

#[test]
fn sort_puts_directories_first_then_names() {
    let entries = vec![
        entry("b.json", false),
        entry("zeta", true),
        entry("a.json", false),
        entry("alpha", true),
    ];
    let sorted = sort_file_entries(entries);
    let names: Vec<&str> = sorted.iter().map(|e| e.name.as_str()).collect();
    assert_eq!(names, vec!["alpha", "zeta", "a.json", "b.json"]);
}

#[test]
fn classification_ignores_case() {
    assert_eq!(classify_image_name("PHOTO.PNG"), Some(ImageKind::Png));
    assert_eq!(classify_image_name("shot.JpEg"), Some(ImageKind::Jpeg));
    assert_eq!(classify_image_name("anim.gif"), Some(ImageKind::Gif));
    assert_eq!(classify_image_name("pic.webp"), Some(ImageKind::Webp));
    assert_eq!(classify_image_name("notes.txt"), None);
    assert_eq!(classify_image_name("png"), None);
}

#[test]
fn data_url_is_exact() {
    assert_eq!(
        image_data_url(ImageKind::Png, &vec![0u8, 1, 2]),
        "data:image/png;base64,AAEC"
    );
    assert_eq!(image_data_url(ImageKind::Gif, &vec![]), "data:image/gif;base64,");
    assert_eq!(
        image_data_url(ImageKind::Jpeg, &vec![255u8, 254]),
        "data:image/jpeg;base64,//4="
    );
}

#[test]
fn image_record_is_built_for_images_only() {
    let img = make_image_resource(
        String::from("A.GIF"),
        String::from("/tmp/A.GIF"),
        &vec![1u8, 2, 3],
    )
    .expect("an image record");
    assert_eq!(img.name, "A.GIF");
    assert_eq!(img.path, "/tmp/A.GIF");
    assert_eq!(img.data_url, "data:image/gif;base64,AQID");
    assert!(make_image_resource(
        String::from("A.TXT"),
        String::from("/tmp/A.TXT"),
        &vec![1u8, 2, 3]
    )
    .is_none());
}

#[test]
fn image_listing_sorts_by_name() {
    let mk = |name: &str| ImageResource {
        name: String::from(name),
        path: String::from(name),
        data_url: String::new(),
    };
    let sorted = sort_image_resources(vec![mk("c.png"), mk("a.png"), mk("b.png")]);
    let names: Vec<&str> = sorted.iter().map(|e| e.name.as_str()).collect();
    assert_eq!(names, vec!["a.png", "b.png", "c.png"]);
}
