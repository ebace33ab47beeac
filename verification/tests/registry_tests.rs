use botcore::registry::{
    global_commands, guild_test_command, Catalog, CommandDef, OptionKind, TEST_GUILD_ID,
};

fn catalog_contents(c: &Catalog) -> Vec<(String, String, usize)> {
    let mut v = Vec::new();
    for i in 0..c.len() {
        let d = c.get(i);
        v.push((d.name.clone(), d.description.clone(), d.options.len()));
    }
    v
}

#[test]
fn global_set_contents() {
    let v = global_commands();
    assert_eq!(v.len(), 3);
    assert_eq!(v[0].name, "ping");
    assert_eq!(v[0].description, "pong");
    assert!(v[0].options.is_empty());
    assert_eq!(v[1].name, "id");
    assert_eq!(v[1].description, "Get a user id");
    assert_eq!(v[1].options.len(), 1);
    assert_eq!(v[1].options[0].name, "id");
    assert_eq!(v[1].options[0].description, "The user to lookup");
    assert!(v[1].options[0].required);
    assert!(matches!(v[1].options[0].kind, OptionKind::User));
    assert_eq!(v[2].name, "join");
    assert_eq!(v[2].description, "Joins a Voice Channel.");
    assert!(v[2].options.is_empty());
}

#[test]
fn guild_command_contents() {
    let d = guild_test_command();
    assert_eq!(d.name, "test");
    assert_eq!(d.description, "for testing only");
    assert!(d.options.is_empty());
    assert_eq!(TEST_GUILD_ID, 705038806893592657);
}

#[test]
fn registration_is_idempotent() {
    let mut c = Catalog::new();
    c.register(global_commands());
    let once = catalog_contents(&c);
    c.register(global_commands());
    let twice = catalog_contents(&c);
    assert_eq!(c.len(), 3);
    assert_eq!(once, twice);
}

#[test]
fn upsert_replaces_by_name_without_duplicating() {
    let mut c = Catalog::new();
    c.register(global_commands());
    assert_eq!(c.len(), 3);
    let replacement = CommandDef {
        name: "ping".to_string(),
        description: "a newer pong".to_string(),
        options: Vec::new(),
    };
    c.register(vec![replacement]);
    assert_eq!(c.len(), 3);
    assert_eq!(c.get(0).name, "ping");
    assert_eq!(c.get(0).description, "a newer pong");
}

#[test]
fn register_appends_unknown_names() {
    let mut c = Catalog::new();
    c.register(global_commands());
    c.register(vec![guild_test_command()]);
    assert_eq!(c.len(), 4);
    assert_eq!(c.get(3).name, "test");
}
