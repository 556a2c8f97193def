use pddl_search::parents::{trace, ParentMap};
use pddllib::state::{Fact, State};

fn holding(predicates: &[usize]) -> State {
    State::new(predicates.iter().map(|p| Fact::new(*p, Vec::new())).collect())
}

#[test]
fn new_map_holds_the_root_as_its_own_parent() {
    let root = holding(&[1]);
    let map = ParentMap::new(&root);
    assert_eq!(map.len(), 1);
    assert_eq!(map.state(0), &root);
    assert_eq!(map.parent(0), 0);
    assert_eq!(map.index_of(&root), Some(0));
    assert_eq!(map.index_of(&holding(&[2])), None);
}

#[test]
fn new_states_get_the_next_index() {
    let mut map = ParentMap::new(&holding(&[]));
    assert_eq!(map.insert_if_absent(holding(&[1]), 0), Some(1));
    assert_eq!(map.insert_if_absent(holding(&[2]), 0), Some(2));
    assert_eq!(map.insert_if_absent(holding(&[1, 2]), 1), Some(3));
    assert_eq!(map.len(), 4);
    assert_eq!(map.state(3), &holding(&[1, 2]));
    assert_eq!(map.parent(3), 1);
    assert_eq!(map.parent(2), 0);
    assert_eq!(map.index_of(&holding(&[2])), Some(2));
}

#[test]
fn known_states_keep_their_entry() {
    let mut map = ParentMap::new(&holding(&[]));
    assert_eq!(map.insert_if_absent(holding(&[1]), 0), Some(1));
    assert_eq!(map.insert_if_absent(holding(&[2]), 1), Some(2));
    assert_eq!(map.insert_if_absent(holding(&[1]), 2), None);
    assert_eq!(map.insert_if_absent(holding(&[]), 2), None);
    assert_eq!(map.len(), 3);
    assert_eq!(map.parent(1), 0);
    assert_eq!(map.parent(0), 0);
    assert_eq!(map.index_of(&holding(&[1])), Some(1));
}

#[test]
fn states_with_the_same_facts_are_the_same_state() {
    let mut map = ParentMap::new(&holding(&[3, 4]));
    assert_eq!(map.insert_if_absent(holding(&[4, 3]), 0), None);
    assert_eq!(map.index_of(&holding(&[4, 3, 3])), Some(0));
}

#[test]
fn trace_of_the_root_is_the_root_alone() {
    let root = holding(&[7]);
    let map = ParentMap::new(&root);
    assert_eq!(trace(&map, 0), vec![root]);
}

#[test]
fn trace_runs_from_the_root_to_the_node() {
    let mut map = ParentMap::new(&holding(&[]));
    map.insert_if_absent(holding(&[1]), 0);
    map.insert_if_absent(holding(&[2]), 0);
    map.insert_if_absent(holding(&[1, 2]), 2);
    map.insert_if_absent(holding(&[1, 2, 3]), 3);
    assert_eq!(
        trace(&map, 4),
        vec![holding(&[]), holding(&[2]), holding(&[1, 2]), holding(&[1, 2, 3])]
    );
    assert_eq!(trace(&map, 1), vec![holding(&[]), holding(&[1])]);
}
