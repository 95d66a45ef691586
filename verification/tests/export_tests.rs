use starred_repos::repo::Repo;
use starred_repos::export::{to_json, to_toml};

fn sample() -> Vec<Repo> {
    vec![
        Repo {
            name: "hub".to_string(),
            url: "https://example.net/hub".to_string(),
            description: "a hub".to_string(),
            star_count: 42,
        },
        Repo {
            name: "spoke".to_string(),
            url: "https://example.net/spoke".to_string(),
            description: "".to_string(),
            star_count: 0,
        },
    ]
}

#[test]
fn json_exact_text() {
    let repos = vec![Repo {
        name: "hub".to_string(),
        url: "https://h".to_string(),
        description: "d".to_string(),
        star_count: 42,
    }];
    assert_eq!(
        to_json(&repos),
        "[{\"name\":\"hub\",\"html_url\":\"https://h\",\"description\":\"d\",\"stargazers_count\":42}]"
    );
}

#[test]
fn toml_exact_text() {
    let repos = vec![Repo {
        name: "hub".to_string(),
        url: "https://h".to_string(),
        description: "d".to_string(),
        star_count: 42,
    }];
    assert_eq!(
        to_toml(&repos),
        "[[repo]]\nname = \"hub\"\nhtml_url = \"https://h\"\ndescription = \"d\"\nstargazers_count = 42\n"
    );
}

#[test]
fn empty_list_exports() {
    let repos: Vec<Repo> = Vec::new();
    assert_eq!(to_json(&repos), "[]");
    assert_eq!(to_toml(&repos), "");
}

#[test]
fn escapes_quotes_backslashes_and_controls() {
    let repos = vec![Repo {
        name: "a\"b\\c\nd".to_string(),
        url: "u".to_string(),
        description: "t\tt".to_string(),
        star_count: 1,
    }];
    let json = to_json(&repos);
    assert!(json.contains("a\\\"b\\\\c\\u000ad"));
    assert!(json.contains("t\\u0009t"));
    let parsed: serde_json::Value = serde_json::from_str(&json).expect("escaped json parses");
    assert_eq!(parsed[0]["name"].as_str().unwrap(), "a\"b\\c\nd");
    assert_eq!(parsed[0]["description"].as_str().unwrap(), "t\tt");
}

#[test]
fn json_deserializes_back() {
    let repos = sample();
    let json = to_json(&repos);
    let parsed: serde_json::Value = serde_json::from_str(&json).expect("export is valid json");
    let arr = parsed.as_array().expect("an array");
    assert_eq!(arr.len(), 2);
    assert_eq!(arr[0]["name"].as_str().unwrap(), "hub");
    assert_eq!(arr[0]["html_url"].as_str().unwrap(), "https://example.net/hub");
    assert_eq!(arr[0]["description"].as_str().unwrap(), "a hub");
    assert_eq!(arr[0]["stargazers_count"].as_u64().unwrap(), 42);
    assert_eq!(arr[1]["name"].as_str().unwrap(), "spoke");
    assert_eq!(arr[1]["stargazers_count"].as_u64().unwrap(), 0);
}

#[test]
fn toml_deserializes_back() {
    let repos = sample();
    let text = to_toml(&repos);
    let parsed: toml::Value = toml::from_str(&text).expect("export is valid toml");
    let tables = parsed["repo"].as_array().expect("a table array");
    assert_eq!(tables.len(), 2);
    assert_eq!(tables[0]["name"].as_str().unwrap(), "hub");
    assert_eq!(tables[0]["html_url"].as_str().unwrap(), "https://example.net/hub");
    assert_eq!(tables[0]["description"].as_str().unwrap(), "a hub");
    assert_eq!(tables[0]["stargazers_count"].as_integer().unwrap(), 42);
    assert_eq!(tables[1]["name"].as_str().unwrap(), "spoke");
    assert_eq!(tables[1]["description"].as_str().unwrap(), "");
}

#[test]
fn json_and_toml_carry_the_same_records() {
    let repos = sample();
    let json: serde_json::Value = serde_json::from_str(&to_json(&repos)).unwrap();
    let toml_doc: toml::Value = toml::from_str(&to_toml(&repos)).unwrap();
    let json_arr = json.as_array().unwrap();
    let toml_arr = toml_doc["repo"].as_array().unwrap();
    assert_eq!(json_arr.len(), toml_arr.len());
    for (j, t) in json_arr.iter().zip(toml_arr.iter()) {
        assert_eq!(j["name"].as_str().unwrap(), t["name"].as_str().unwrap());
        assert_eq!(j["html_url"].as_str().unwrap(), t["html_url"].as_str().unwrap());
        assert_eq!(
            j["description"].as_str().unwrap(),
            t["description"].as_str().unwrap()
        );
        assert_eq!(
            j["stargazers_count"].as_u64().unwrap(),
            t["stargazers_count"].as_integer().unwrap() as u64
        );
    }
}

#[test]
fn large_star_count_renders_all_digits() {
    let repos = vec![Repo {
        name: "big".to_string(),
        url: "u".to_string(),
        description: "d".to_string(),
        star_count: u64::MAX,
    }];
    let json = to_json(&repos);
    assert!(json.contains("\"stargazers_count\":18446744073709551615}"));
    let parsed: serde_json::Value = serde_json::from_str(&json).unwrap();
    assert_eq!(parsed[0]["stargazers_count"].as_u64().unwrap(), u64::MAX);
}
