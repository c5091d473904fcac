use ruthless::import::{build_layer_stack, import_from_layer_stack, ImportStep, LayerRecord};
use ruthless::tree::apply_layer_to_tree;

fn paths(ps: &[&str]) -> Vec<Vec<u8>> {
    ps.iter().map(|p| p.as_bytes().to_vec()).collect()
}

fn sorted(mut t: Vec<Vec<u8>>) -> Vec<Vec<u8>> {
    t.sort();
    t.dedup();
    t
}

#[test]
fn two_layer_import_whites_out_bin() {
    let layers = vec![
        LayerRecord { id: b"child".to_vec(), parent: Some(b"base".to_vec()) },
        LayerRecord { id: b"base".to_vec(), parent: None },
    ];
    let contents = |id: &[u8]| -> Vec<Vec<u8>> {
        if id == b"base" {
            paths(&["bin/", "bin/sh", "etc/"])
        } else {
            paths(&[".wh.bin"])
        }
    };
    let stack = build_layer_stack(&layers, b"child").unwrap();
    let steps = import_from_layer_stack(b"img", &stack).unwrap();
    let mut subvolume: Vec<Vec<u8>> = Vec::new();
    for step in steps {
        match step {
            ImportStep::CreateSubvolume { layer, .. } => {
                subvolume = Vec::new();
                apply_layer_to_tree(&mut subvolume, &contents(&layer));
            }
            ImportStep::Snapshot { layer, name, .. } => {
                apply_layer_to_tree(&mut subvolume, &contents(&layer));
                assert_eq!(name, b"img".to_vec());
            }
        }
    }
    assert_eq!(sorted(subvolume), paths(&["etc/"]));
}

#[test]
fn whiteout_removes_only_its_sibling() {
    let mut tree = paths(&["d/foo", "d/foo/inner", "d/food", "d/bar", "e/foo"]);
    apply_layer_to_tree(&mut tree, &paths(&["d/.wh.foo"]));
    assert_eq!(sorted(tree), paths(&["d/bar", "d/food", "e/foo"]));
}

#[test]
fn opaque_whiteout_clears_before_new_content() {
    let mut tree = paths(&["d/", "d/a", "d/b", "d/c", "other"]);
    apply_layer_to_tree(&mut tree, &paths(&["d/new", "d/.wh..wh..opq"]));
    assert_eq!(sorted(tree), paths(&["d/", "d/new", "other"]));
}

#[test]
fn modification_of_whited_out_path_survives() {
    let mut tree = paths(&["foo", "keep"]);
    apply_layer_to_tree(&mut tree, &paths(&["foo", ".wh.foo"]));
    assert_eq!(sorted(tree), paths(&["foo", "keep"]));
}
