use ssg::category::{
    capitalize, discover_categories, is_hidden, load_category_metadata, validate_category,
    DirectoryInfo,
};
use ssg::types::Category;

fn category(slug: &str, name: &str, index: i32) -> Category {
    Category {
        slug: slug.to_string(),
        name: name.to_string(),
        description: String::new(),
        index,
        hidden: false,
        icon: None,
        color: None,
        cover_image: None,
    }
}

fn dir(path: &str, has_markdown: bool, metadata: Option<Category>) -> DirectoryInfo {
    DirectoryInfo { path: path.to_string(), has_markdown, metadata }
}

#[test]
fn test_validate_category() {
    let categories = vec![category("dev", "Development", 0), category("blog", "Blog", 1)];

    assert!(validate_category("dev", &categories));
    assert!(validate_category("blog", &categories));
    assert!(!validate_category("invalid", &categories));
}

#[test]
fn test_capitalize() {
    assert_eq!(capitalize("dev"), "Dev");
    assert_eq!(capitalize("tutorials"), "Tutorials");
    assert_eq!(capitalize(""), "");
}

#[test]
fn capitalize_follows_unicode() {
    assert_eq!(capitalize("ßeta"), "SSeta");
    assert_eq!(capitalize("élan"), "Élan");
    assert_eq!(capitalize("한글"), "한글");
}

#[test]
fn test_discover_categories() {
    let dirs = vec![dir("dev", true, None)];
    let categories = discover_categories(&dirs);
    assert_eq!(categories.len(), 1);
    assert_eq!(categories[0].slug, "dev");
    assert_eq!(categories[0].name, "Dev");
    assert_eq!(categories[0].index, 999);
}

#[test]
fn test_load_category_metadata() {
    let mut declared = category("", "Development", 0);
    declared.description = "Tech posts".to_string();
    let dirs = vec![dir("dev", true, Some(declared))];
    let category = load_category_metadata(&dirs, &dirs[0]);
    assert_eq!(category.slug, "dev");
    assert_eq!(category.name, "Development");
    assert_eq!(category.description, "Tech posts");
    assert_eq!(category.index, 0);
}

#[test]
fn test_nested_category_hidden_inheritance() {
    let mut work = category("", "", 999);
    work.hidden = true;
    let dirs = vec![dir("work", false, Some(work)), dir("work/other", true, None)];

    let categories = discover_categories(&dirs);

    let work = categories.iter().find(|c| c.slug == "work").unwrap();
    let work_other = categories.iter().find(|c| c.slug == "work/other").unwrap();

    assert!(work.hidden);
    assert!(work_other.hidden); // Should inherit hidden from parent
    assert_eq!(work_other.name, "Other");
}

#[test]
fn test_hidden_directories_ignored() {
    let dirs = vec![
        dir(".hidden", true, None),
        dir("_private", true, None),
        dir("dev/_drafts", true, None),
        dir("dev", false, None),
    ];
    let categories = discover_categories(&dirs);
    assert_eq!(categories.len(), 0);
}

#[test]
fn test_category_sorting() {
    let dirs = vec![
        dir("zzz", true, Some(category("", "", 0))),
        dir("aaa", true, Some(category("", "", 2))),
        dir("mmm", true, Some(category("", "", 1))),
    ];
    let categories = discover_categories(&dirs);
    assert_eq!(categories[0].slug, "zzz");
    assert_eq!(categories[1].slug, "mmm");
    assert_eq!(categories[2].slug, "aaa");
}

#[test]
fn categories_of_one_index_sort_by_name() {
    let dirs = vec![
        dir("b", true, Some(category("", "Beta", 1))),
        dir("a", true, Some(category("", "Alpha", 1))),
        dir("c", true, Some(category("", "Alpha2", 1))),
        dir("d", true, Some(category("", "Zed", 0))),
    ];
    let names: Vec<String> = discover_categories(&dirs).into_iter().map(|c| c.name).collect();
    assert_eq!(names, vec!["Zed", "Alpha", "Alpha2", "Beta"]);
}

#[test]
fn directory_without_posts_is_no_category() {
    let dirs = vec![dir("empty", false, None), dir("full/deep/er", true, None), dir("full", false, None), dir("full/deep", false, None)];
    let slugs: Vec<String> = discover_categories(&dirs).into_iter().map(|c| c.slug).collect();
    assert_eq!(slugs.len(), 3);
    assert!(slugs.contains(&"full".to_string()));
    assert!(slugs.contains(&"full/deep".to_string()));
    assert!(slugs.contains(&"full/deep/er".to_string()));
}

#[test]
fn hidden_names_start_with_dot_or_underscore() {
    assert!(is_hidden("content/posts/.git"));
    assert!(is_hidden("_drafts"));
    assert!(!is_hidden("content/_x/dev"));
    assert!(!is_hidden("dev"));
}
