use lucis::nearest::select_nearest;
use lucis::scene::{parse_axis, Axis, Primitive, Scene, SceneError, SceneNode};
use lucis::shading::{count_visible, light_visibility};

#[test]
fn nodes_get_sequential_ids() {
    let mut s = Scene::new();
    assert_eq!(s.root(), None);
    assert_eq!(s.create_node("a".to_string()), 0);
    assert_eq!(s.create_node("b".to_string()), 1);
    assert_eq!(s.create_node("c".to_string()), 2);
    assert_eq!(s.num_nodes(), 3);
    assert_eq!(s.root(), Some(0));
    let n = s.node(1);
    assert_eq!(n.id, 1);
    assert_eq!(n.name, "b");
    assert_eq!(n.primitive, Primitive::Sphere);
    assert!(n.children.is_empty());
}

#[test]
fn new_node_has_no_primitive() {
    let n = SceneNode::new(4, "x".to_string());
    assert_eq!(n.id, 4);
    assert_eq!(n.primitive, Primitive::Empty);
    assert!(n.children.is_empty());
}

#[test]
fn children_are_linked_in_order() {
    let mut s = Scene::new();
    for name in ["root", "a", "b"] {
        s.create_node(name.to_string());
    }
    assert_eq!(s.add_child(0, 2), Ok(()));
    assert_eq!(s.add_child(0, 1), Ok(()));
    assert_eq!(s.node(0).children, vec![2, 1]);
    assert_eq!(s.parent(1), Some(0));
    assert_eq!(s.parent(0), None);
}

#[test]
fn dangling_ids_are_refused() {
    let mut s = Scene::new();
    s.create_node("root".to_string());
    assert_eq!(s.add_child(0, 1), Err(SceneError::UnknownNode));
    assert_eq!(s.add_child(3, 0), Err(SceneError::UnknownNode));
    assert!(s.node(0).children.is_empty());
}

#[test]
fn second_parent_is_refused() {
    let mut s = Scene::new();
    for name in ["root", "a", "b"] {
        s.create_node(name.to_string());
    }
    assert_eq!(s.add_child(0, 2), Ok(()));
    assert_eq!(s.add_child(1, 2), Err(SceneError::AlreadyAttached));
    assert!(s.node(1).children.is_empty());
}

#[test]
fn cycles_are_refused() {
    let mut s = Scene::new();
    for name in ["root", "a", "b"] {
        s.create_node(name.to_string());
    }
    assert_eq!(s.add_child(1, 1), Err(SceneError::Cycle));
    assert_eq!(s.add_child(0, 1), Ok(()));
    assert_eq!(s.add_child(1, 2), Ok(()));
    assert_eq!(s.add_child(2, 0), Err(SceneError::Cycle));
    assert_eq!(s.parent(0), None);
    assert!(s.node(2).children.is_empty());
}

#[test]
fn nearest_of_candidates() {
    assert_eq!(select_nearest(&vec![]), None);
    assert_eq!(select_nearest(&vec![None, None]), None);
    assert_eq!(select_nearest(&vec![Some(7)]), Some(0));
    assert_eq!(select_nearest(&vec![None, Some(5), Some(3), Some(4)]), Some(2));
}

#[test]
fn nearest_first_wins_ties() {
    assert_eq!(select_nearest(&vec![Some(3), Some(3)]), Some(0));
    assert_eq!(select_nearest(&vec![None, Some(9), Some(2), Some(2)]), Some(2));
}

#[test]
fn nearest_does_not_depend_on_order() {
    // squared distances 1.0 and 9.0, as the bit patterns of f32
    let near = 1.0f32.to_bits();
    let far = 9.0f32.to_bits();
    assert_eq!(select_nearest(&vec![Some(near), Some(far)]), Some(0));
    assert_eq!(select_nearest(&vec![Some(far), Some(near)]), Some(1));
    assert_eq!(select_nearest(&vec![None, Some(far), None, Some(near)]), Some(3));
}

#[test]
fn visible_probes_are_counted() {
    assert_eq!(count_visible(&vec![]), 0);
    assert_eq!(count_visible(&vec![false, true, false, false]), 3);
    assert_eq!(count_visible(&vec![true, true]), 0);
}

#[test]
fn occluded_light_adds_nothing() {
    assert_eq!(light_visibility(&vec![true, true, true], 3), None);
}

#[test]
fn unblocked_light_adds_a_share() {
    assert_eq!(light_visibility(&vec![false, true, false], 4), Some((2, 4)));
    let blocked = light_visibility(&vec![true, true], 2);
    let open = light_visibility(&vec![false, true], 2);
    assert_eq!(blocked, None);
    assert_eq!(open, Some((1, 2)));
}

#[test]
fn light_without_samples_adds_nothing() {
    assert_eq!(light_visibility(&vec![], 0), None);
    assert_eq!(light_visibility(&vec![false], 0), None);
}

#[test]
fn rotation_axes() {
    assert_eq!(parse_axis("x"), Some(Axis::X));
    assert_eq!(parse_axis("X"), Some(Axis::X));
    assert_eq!(parse_axis("y"), Some(Axis::Y));
    assert_eq!(parse_axis("Z"), Some(Axis::Z));
    assert_eq!(parse_axis("w"), None);
    assert_eq!(parse_axis("xy"), None);
    assert_eq!(parse_axis(""), None);
}
