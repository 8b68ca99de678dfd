use brazen::config_merge::{merge_node, ConfigNode};

fn table(entries: Vec<(&str, ConfigNode<i64>)>) -> ConfigNode<i64> {
    ConfigNode::Table(entries.into_iter().map(|(k, v)| (k.to_string(), v)).collect())
}

fn get<'a>(n: &'a ConfigNode<i64>, path: &[&str]) -> Option<&'a ConfigNode<i64>> {
    let mut cur = n;
    for key in path {
        match cur {
            ConfigNode::Table(t) => cur = &t.iter().find(|(k, _)| k == key)?.1,
            ConfigNode::Value(_) => return None,
        }
    }
    Some(cur)
}

fn value(n: Option<&ConfigNode<i64>>) -> Option<i64> {
    match n {
        Some(ConfigNode::Value(v)) => Some(*v),
        _ => None,
    }
}

#[test]
fn file_values_override_and_defaults_stay() {
    let mut base = table(vec![
        ("app", table(vec![("mode", ConfigNode::Value(1)), ("name", ConfigNode::Value(2))])),
        ("cache", table(vec![("max", ConfigNode::Value(3))])),
    ]);
    let file = table(vec![
        ("app", table(vec![("mode", ConfigNode::Value(9))])),
        ("extra", ConfigNode::Value(7)),
    ]);
    merge_node(&mut base, file);
    assert_eq!(value(get(&base, &["app", "mode"])), Some(9));
    assert_eq!(value(get(&base, &["app", "name"])), Some(2));
    assert_eq!(value(get(&base, &["cache", "max"])), Some(3));
    assert_eq!(value(get(&base, &["extra"])), Some(7));
}

#[test]
fn a_value_replaces_a_table_and_back() {
    let mut base = table(vec![("a", table(vec![("b", ConfigNode::Value(1))]))]);
    merge_node(&mut base, table(vec![("a", ConfigNode::Value(5))]));
    assert_eq!(value(get(&base, &["a"])), Some(5));
    merge_node(&mut base, table(vec![("a", table(vec![("c", ConfigNode::Value(6))]))]));
    assert_eq!(value(get(&base, &["a", "c"])), Some(6));
    assert_eq!(get(&base, &["a", "b"]).is_none(), true);
}
