use mpm::search::{
    best_position, parse_owner_name_id, rank_names, rank_search_results, rank_search_results_stable, ParsedId,
    Searchable,
};

struct TestItem {
    name: String,
}

impl Searchable for TestItem {
    fn name_text(&self) -> vstd::seq::Seq<char> {
        unreachable!()
    }

    fn search_name(&self) -> &str {
        &self.name
    }
}

fn items(names: &[&str]) -> Vec<TestItem> {
    names.iter().map(|n| TestItem { name: n.to_string() }).collect()
}

fn names(items: &[TestItem]) -> Vec<&str> {
    items.iter().map(|i| i.name.as_str()).collect()
}

#[test]
fn test_parse_owner_name_full() {
    let id = parse_owner_name_id("ViaVersion/ViaVersion");
    assert_eq!(
        id,
        ParsedId::Full {
            owner: "ViaVersion".to_string(),
            name: "ViaVersion".to_string()
        }
    );
}

#[test]
fn test_parse_owner_name_search_term() {
    let id = parse_owner_name_id("ViaVersion");
    assert_eq!(id, ParsedId::SearchTerm("ViaVersion".to_string()));
}

#[test]
fn test_parse_owner_name_empty_parts() {
    let id = parse_owner_name_id("/ViaVersion");
    assert_eq!(id, ParsedId::SearchTerm("/ViaVersion".to_string()));

    let id = parse_owner_name_id("ViaVersion/");
    assert_eq!(id, ParsedId::SearchTerm("ViaVersion/".to_string()));
}

#[test]
fn test_rank_exact_match_first() {
    let mut items = vec![
        TestItem {
            name: "WorldEditPro".to_string(),
        },
        TestItem {
            name: "WorldEdit".to_string(),
        },
        TestItem {
            name: "WorldEditHelper".to_string(),
        },
    ];

    rank_search_results(&mut items, "WorldEdit");

    assert_eq!(items[0].name, "WorldEdit");
}

#[test]
fn test_rank_case_insensitive() {
    let mut items = vec![
        TestItem {
            name: "WORLDEDIT".to_string(),
        },
        TestItem {
            name: "worldedit".to_string(),
        },
    ];

    rank_search_results(&mut items, "WorldEdit");

    // Both are exact matches, so they should be sorted alphabetically
    // "WORLDEDIT" < "worldedit" in lowercase comparison
}

#[test]
fn test_rank_hyphen_match() {
    let mut items = vec![
        TestItem {
            name: "World Edit".to_string(),
        },
        TestItem {
            name: "WorldEditPro".to_string(),
        },
    ];

    rank_search_results(&mut items, "world-edit");

    assert_eq!(items[0].name, "World Edit");
}

#[test]
fn parse_with_more_than_one_slash_is_a_search_term() {
    assert_eq!(parse_owner_name_id("a/b/c"), ParsedId::SearchTerm("a/b/c".to_string()));
    assert_eq!(parse_owner_name_id(""), ParsedId::SearchTerm(String::new()));
    assert_eq!(parse_owner_name_id("/"), ParsedId::SearchTerm("/".to_string()));
}

#[test]
fn rank_sorts_each_group_by_lowercase_name() {
    let mut list = items(&["zeta", "Alpha", "worldedit", "beta", "WORLDEDIT"]);
    rank_search_results(&mut list, "WorldEdit");
    assert_eq!(names(&list), vec!["worldedit", "WORLDEDIT", "Alpha", "beta", "zeta"]);
}

#[test]
fn rank_takes_a_space_in_the_query_for_a_hyphen() {
    let mut list = items(&["aaa", "world-edit"]);
    rank_search_results(&mut list, "World Edit");
    assert_eq!(names(&list), vec!["world-edit", "aaa"]);
}

#[test]
fn stable_rank_keeps_the_order_within_groups() {
    let mut list = items(&["zeta", "Alpha", "worldedit", "beta", "WORLDEDIT"]);
    rank_search_results_stable(&mut list, "WorldEdit");
    assert_eq!(names(&list), vec!["worldedit", "WORLDEDIT", "zeta", "Alpha", "beta"]);
}

#[test]
fn stable_rank_does_not_equate_hyphen_and_space() {
    let mut list = items(&["first", "World Edit"]);
    rank_search_results_stable(&mut list, "world-edit");
    assert_eq!(names(&list), vec!["first", "World Edit"]);
}

#[test]
fn rank_of_nothing_is_nothing() {
    let mut list: Vec<TestItem> = Vec::new();
    rank_search_results(&mut list, "x");
    assert!(list.is_empty());
}

#[test]
fn names_rank_by_position() {
    let names: Vec<String> =
        ["zeta", "Alpha", "worldedit", "beta", "WORLDEDIT"].iter().map(|s| s.to_string()).collect();
    assert_eq!(rank_names(&names, "WorldEdit", false), vec![2, 4, 1, 3, 0]);
    assert_eq!(rank_names(&names, "WorldEdit", true), vec![2, 4, 0, 1, 3]);
    assert_eq!(best_position(&names, "WorldEdit", false), 2);
    assert_eq!(best_position(&names, "WorldEdit", true), 2);
    assert_eq!(best_position(&names, "nothing", false), 1);
    assert_eq!(best_position(&names, "nothing", true), 0);
    assert_eq!(best_position(&Vec::new(), "nothing", true), 0);
    assert!(rank_names(&Vec::new(), "x", false).is_empty());
}

#[test]
fn exact_match_first_then_by_name() {
    let mut list = items(&["WorldEditPro", "WorldEdit", "WorldEditHelper"]);
    rank_search_results(&mut list, "WorldEdit");
    assert_eq!(names(&list), vec!["WorldEdit", "WorldEditHelper", "WorldEditPro"]);
}

#[test]
fn a_hyphen_in_the_name_stands_for_a_space_in_the_query() {
    let mut list = items(&["A World", "World-Edit"]);
    rank_search_results(&mut list, "world edit");
    assert_eq!(names(&list), vec!["World-Edit", "A World"]);
}

#[test]
fn stable_rank_is_a_partition() {
    let mut list = items(&["WorldEditPro", "worldedit", "Alpha", "WorldEdit"]);
    rank_search_results_stable(&mut list, "WorldEdit");
    assert_eq!(names(&list), vec!["worldedit", "WorldEdit", "WorldEditPro", "Alpha"]);
}
