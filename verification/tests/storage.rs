use qwest::storage::{load_variables, set_variable, Variable, VariableStore};

#[test]
fn set_and_load_global_and_project_variables() {
    let mut store = VariableStore::new();

    // global
    set_variable(&mut store, "token", "global-token", None);
    // project-specific
    set_variable(&mut store, "token", "project-token", Some("my_project"));
    set_variable(&mut store, "url", "https://example.com", Some("my_project"));

    let (global, project) = load_variables(&store, "my_project");

    assert_eq!(global.len(), 1);
    assert_eq!(global[0].label, "token");
    assert_eq!(global[0].value, "global-token");
    assert!(global[0].project.is_none());

    assert_eq!(project.len(), 2);
    let token = project.iter().find(|v| v.label == "token").unwrap();
    assert_eq!(token.value, "project-token");
    assert_eq!(token.project.as_deref(), Some("my_project"));

    let url = project.iter().find(|v| v.label == "url").unwrap();
    assert_eq!(url.value, "https://example.com");
}

#[test]
fn set_overwrites_existing() {
    let mut store = VariableStore::new();

    set_variable(&mut store, "token", "first", Some("project"));
    set_variable(&mut store, "token", "second", Some("project"));

    let (_g, project) = load_variables(&store, "project");
    assert_eq!(project.len(), 1);
    assert_eq!(project[0].value, "second");
}

#[test]
fn same_label_in_two_scopes_keeps_both_rows() {
    let mut store = VariableStore::new();
    set_variable(&mut store, "token", "g", None);
    set_variable(&mut store, "token", "a", Some("alpha"));
    set_variable(&mut store, "token", "b", Some("beta"));
    set_variable(&mut store, "token", "g2", None);
    assert_eq!(store.len(), 3);

    let (global, alpha) = load_variables(&store, "alpha");
    assert_eq!(global.len(), 1);
    assert_eq!(global[0].value, "g2");
    assert_eq!(alpha.len(), 1);
    assert_eq!(alpha[0].value, "a");

    let (_, none) = load_variables(&store, "gamma");
    assert!(none.is_empty());
}

#[test]
fn a_written_row_moves_to_the_end() {
    let mut store = VariableStore::new();
    set_variable(&mut store, "a", "1", Some("p"));
    set_variable(&mut store, "b", "2", Some("p"));
    set_variable(&mut store, "a", "3", Some("p"));
    let rows = store.rows();
    assert_eq!(rows.len(), 2);
    assert_eq!(rows[0].label, "b");
    assert_eq!(rows[1].label, "a");
    assert_eq!(rows[1].value, "3");
}

#[test]
fn from_rows_keeps_the_last_row_of_a_label() {
    let rows = vec![
        Variable { label: "x".into(), value: "1".into(), project: None },
        Variable { label: "y".into(), value: "2".into(), project: Some("p".into()) },
        Variable { label: "x".into(), value: "3".into(), project: None },
    ];
    let store = VariableStore::from_rows(rows);
    assert_eq!(store.len(), 2);
    let (global, project) = load_variables(&store, "p");
    assert_eq!(global.len(), 1);
    assert_eq!(global[0].value, "3");
    assert_eq!(project.len(), 1);
    assert_eq!(project[0].label, "y");
}
