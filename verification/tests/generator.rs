use asset_manifest::generate::{
    asset_path, derive_identifier, file_stem, generate_manifest, images_container,
    is_reserved_name, render_binding, svgs_container,
};

fn names(list: &[&str]) -> Vec<String> {
    list.iter().map(|s| s.to_string()).collect()
}

#[test]
fn identifier_from_kebab_case() {
    assert_eq!(derive_identifier("my-icon.svg"), "myIcon");
}

#[test]
fn identifier_from_underscore_and_capitals() {
    assert_eq!(derive_identifier("Profile_Picture.png"), "profilePicture");
}

#[test]
fn identifier_ignores_everything_after_first_dot() {
    assert_eq!(derive_identifier("logo.v2.png"), "logo");
}

#[test]
fn identifier_from_name_without_extension() {
    assert_eq!(derive_identifier("README"), "readme");
}

#[test]
fn identifier_of_single_word_lowercases_first_letter() {
    assert_eq!(derive_identifier("Logo.png"), "logo");
}

#[test]
fn stem_stops_at_first_dot() {
    assert_eq!(file_stem("logo.v2.png"), "logo");
    assert_eq!(file_stem("foo.png"), "foo");
    assert_eq!(file_stem("README"), "README");
    assert_eq!(file_stem(".gitignore"), "");
}

#[test]
fn path_keeps_original_file_name() {
    assert_eq!(asset_path("assets/images", "foo.png"), "assets/images/foo.png");
    assert_eq!(asset_path("assets/svgs", "logo.v2.png"), "assets/svgs/logo.v2.png");
}

#[test]
fn binding_line_layout() {
    assert_eq!(
        render_binding("foo", "assets/images/foo.png"),
        "  static const String foo = \"assets/images/foo.png\";\n"
    );
}

#[test]
fn reserved_name_is_recognized_case_sensitively() {
    assert!(is_reserved_name(".DS_Store"));
    assert!(!is_reserved_name(".ds_store"));
    assert!(!is_reserved_name("DS_Store"));
    assert!(!is_reserved_name("picture.png"));
}

#[test]
fn empty_directories_still_emit_both_containers() {
    let manifest = generate_manifest(&names(&[]), &names(&[]));
    assert_eq!(manifest, "class ImageAssets {\n} \nclass SvgAssets {\n}\n");
}

#[test]
fn manifest_lists_every_file_with_its_path() {
    let manifest = generate_manifest(
        &names(&["my-icon.png", "Profile_Picture.png"]),
        &names(&["logo.v2.svg"]),
    );
    assert_eq!(
        manifest,
        "class ImageAssets {\n\
         \x20 static const String myIcon = \"assets/images/my-icon.png\";\n\
         \x20 static const String profilePicture = \"assets/images/Profile_Picture.png\";\n\
         } \n\
         class SvgAssets {\n\
         \x20 static const String logo = \"assets/svgs/logo.v2.svg\";\n\
         }\n"
    );
}

#[test]
fn generation_is_idempotent() {
    let images = names(&["a.png", "b-c.png"]);
    let svgs = names(&["d.svg"]);
    let first = generate_manifest(&images, &svgs);
    let second = generate_manifest(&images, &svgs);
    assert_eq!(first, second);
}

#[test]
fn reserved_file_is_never_emitted() {
    let with_reserved = generate_manifest(
        &names(&["a.png", ".DS_Store", "b.png"]),
        &names(&[".DS_Store"]),
    );
    let without_reserved = generate_manifest(&names(&["a.png", "b.png"]), &names(&[]));
    assert_eq!(with_reserved, without_reserved);
    assert!(!with_reserved.contains("DS_Store"));
}

#[test]
fn only_reserved_files_give_empty_containers() {
    let manifest = generate_manifest(&names(&[".DS_Store"]), &names(&[".DS_Store"]));
    assert_eq!(manifest, "class ImageAssets {\n} \nclass SvgAssets {\n}\n");
}

#[test]
fn svgs_change_leaves_images_container_unchanged() {
    let images = names(&["a.png", "b.png"]);
    let before = generate_manifest(&images, &names(&["c.svg"]));
    let after = generate_manifest(&images, &names(&["c.svg", "new-file.svg"]));
    let images_part = images_container(&images);
    assert!(before.starts_with(&images_part));
    assert!(after.starts_with(&images_part));
    assert_ne!(before, after);
}

#[test]
fn containers_concatenate_into_the_manifest() {
    let images = names(&["a.png"]);
    let svgs = names(&["b.svg"]);
    let manifest = generate_manifest(&images, &svgs);
    let expected = format!("{}{}", images_container(&images), svgs_container(&svgs));
    assert_eq!(manifest, expected);
}

#[test]
fn leading_dot_file_yields_empty_identifier() {
    assert_eq!(derive_identifier(".gitignore"), "");
}
