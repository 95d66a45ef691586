use starred_repos::repo::Repo;
use starred_repos::sort::sort_by_stars_desc;

fn repo(name: &str, stars: u64) -> Repo {
    Repo {
        name: name.to_string(),
        url: format!("https://example.net/{}", name),
        description: format!("about {}", name),
        star_count: stars,
    }
}

fn names(repos: &[Repo]) -> Vec<String> {
    repos.iter().map(|r| r.name.clone()).collect()
}

#[test]
fn sorts_descending_by_stars() {
    let input = vec![repo("a", 1), repo("b", 5), repo("c", 3)];
    let sorted = sort_by_stars_desc(input);
    assert_eq!(names(&sorted), vec!["b", "c", "a"]);
    assert!(sorted.windows(2).all(|w| w[0].star_count >= w[1].star_count));
}

#[test]
fn equal_stars_keep_original_order() {
    let input = vec![repo("a", 1), repo("b", 5), repo("c", 3), repo("d", 5)];
    let sorted = sort_by_stars_desc(input);
    assert_eq!(names(&sorted), vec!["b", "d", "c", "a"]);
}

#[test]
fn all_equal_stars_is_identity() {
    let input = vec![repo("x", 7), repo("y", 7), repo("z", 7)];
    let sorted = sort_by_stars_desc(input);
    assert_eq!(names(&sorted), vec!["x", "y", "z"]);
}

#[test]
fn empty_list_sorts_to_empty() {
    let sorted = sort_by_stars_desc(Vec::new());
    assert!(sorted.is_empty());
}

#[test]
fn single_record_is_unchanged() {
    let sorted = sort_by_stars_desc(vec![repo("only", 0)]);
    assert_eq!(names(&sorted), vec!["only"]);
    assert_eq!(sorted[0].star_count, 0);
}

#[test]
fn sort_keeps_all_fields_together() {
    let input = vec![repo("low", 2), repo("high", 9)];
    let sorted = sort_by_stars_desc(input);
    assert_eq!(sorted[0].name, "high");
    assert_eq!(sorted[0].url, "https://example.net/high");
    assert_eq!(sorted[0].description, "about high");
    assert_eq!(sorted[0].star_count, 9);
}
