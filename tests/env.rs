use dmt::{parse_env_file, DmtConfig};

fn pairs(v: &[(&str, &str)]) -> Vec<(String, String)> {
    v.iter()
        .map(|(a, b)| (a.to_string(), b.to_string()))
        .collect()
}

#[test]
fn env_lines_are_split_and_trimmed() {
    let text = "  A = 1 \n\n   \nB=2=3\nnoequals\r\nC=\u{3000}x\u{3000}\r\n";
    assert_eq!(
        parse_env_file(text),
        pairs(&[("A", "1"), ("B", "2"), ("C", "x")])
    );
}

#[test]
fn env_empty_text_sets_nothing() {
    assert_eq!(parse_env_file(""), pairs(&[]));
}

#[test]
fn resolve_env_merges_file_over_config() {
    let mut c = DmtConfig::from_toml_str(
        "[connection]\n[env]\nfile = \".env\"\n[env.vars]\nA = \"old\"\nK = \"keep\"\n",
    )
    .unwrap();
    c.resolve_env("A=new\nB=added\n");
    let env = c.env.unwrap();
    assert_eq!(env.file.as_deref(), Some(".env"));
    assert_eq!(
        env.vars.unwrap(),
        pairs(&[("A", "new"), ("K", "keep"), ("B", "added")])
    );
}

#[test]
fn resolve_env_without_file_changes_nothing() {
    let mut c = DmtConfig::from_toml_str("[connection]\n[env.vars]\nA = \"x\"\n").unwrap();
    c.resolve_env("A=y\n");
    assert_eq!(c.env.unwrap().vars.unwrap(), pairs(&[("A", "x")]));
}
