use cargo_embassy::tree::{Template, TemplateItem};

fn file(name: &str, content: &str) -> Template {
    Template::File { name: name.to_string(), content: content.to_string() }
}

fn dir(name: &str, children: Vec<Template>) -> Template {
    Template::Dir { name: name.to_string(), children }
}

fn create(path: &str) -> TemplateItem {
    TemplateItem::Dir { path: path.to_string() }
}

fn write(path: &str, content: &str) -> TemplateItem {
    TemplateItem::File { content: content.to_string(), path: path.to_string() }
}

#[test]
fn flatten_single_file() {
    let t = file("a.txt", "hi");
    assert_eq!(t.flatten("."), vec![write("./a.txt", "hi")]);
}

#[test]
fn flatten_empty_directory() {
    let t = dir("d", vec![]);
    assert_eq!(t.flatten("root"), vec![create("root/d")]);
}

#[test]
fn flatten_is_preorder_with_sibling_order() {
    let t = dir(
        "dir_1",
        vec![
            file("file_1", "hello world"),
            dir("dir_2", vec![file("x", "1"), dir("dir_3", vec![file("y", "2")])]),
            file("file_2", ""),
        ],
    );
    let items = t.flatten(".");
    assert_eq!(
        items,
        vec![
            create("./dir_1"),
            write("./dir_1/file_1", "hello world"),
            create("./dir_1/dir_2"),
            write("./dir_1/dir_2/x", "1"),
            create("./dir_1/dir_2/dir_3"),
            write("./dir_1/dir_2/dir_3/y", "2"),
            write("./dir_1/file_2", ""),
        ]
    );
}

#[test]
fn flatten_visits_each_node_once() {
    let t = dir("r", vec![dir("a", vec![file("f", "")]), dir("b", vec![]), file("g", "")]);
    let items = t.flatten(".");
    assert_eq!(items.len(), 5);
    let mut paths: Vec<String> = items
        .iter()
        .map(|i| match i {
            TemplateItem::Dir { path } => path.clone(),
            TemplateItem::File { path, .. } => path.clone(),
        })
        .collect();
    paths.sort();
    paths.dedup();
    assert_eq!(paths.len(), 5);
}

#[test]
fn flatten_is_deterministic() {
    let t = dir("r", vec![file("f", "c"), dir("d", vec![file("g", "e")])]);
    let u = dir("r", vec![file("f", "c"), dir("d", vec![file("g", "e")])]);
    assert_eq!(t.flatten("."), u.flatten("."));
    assert_eq!(t.flatten("."), t.flatten("."));
}
