use pddl_search::queue::{Element, OpenList};

fn drain(queue: &mut OpenList) -> Vec<(usize, usize)> {
    let mut out = Vec::new();
    while let Some(e) = queue.pop() {
        out.push((e.estimate, e.index));
    }
    out
}

#[test]
fn empty_queue_pops_nothing() {
    let mut queue = OpenList::new();
    assert!(queue.is_empty());
    assert_eq!(queue.len(), 0);
    assert_eq!(queue.pop(), None);
    assert!(queue.is_empty());
}

#[test]
fn smaller_estimate_comes_first() {
    let mut queue = OpenList::new();
    queue.push(Element { index: 0, estimate: 7 });
    queue.push(Element { index: 1, estimate: 3 });
    queue.push(Element { index: 2, estimate: 5 });
    assert_eq!(queue.len(), 3);
    assert_eq!(queue.pop(), Some(Element { index: 1, estimate: 3 }));
    assert_eq!(queue.pop(), Some(Element { index: 2, estimate: 5 }));
    assert_eq!(queue.pop(), Some(Element { index: 0, estimate: 7 }));
    assert_eq!(queue.pop(), None);
}

#[test]
fn ties_go_to_the_smaller_index() {
    let mut queue = OpenList::new();
    queue.push(Element { index: 5, estimate: 2 });
    queue.push(Element { index: 3, estimate: 2 });
    queue.push(Element { index: 9, estimate: 1 });
    queue.push(Element { index: 4, estimate: 2 });
    assert_eq!(drain(&mut queue), vec![(1, 9), (2, 3), (2, 4), (2, 5)]);
}

#[test]
fn comes_before_orders_by_estimate_then_index() {
    let a = Element { index: 4, estimate: 1 };
    let b = Element { index: 2, estimate: 2 };
    let c = Element { index: 3, estimate: 2 };
    assert!(a.comes_before(&b));
    assert!(!b.comes_before(&a));
    assert!(b.comes_before(&c));
    assert!(!c.comes_before(&b));
    assert!(!a.comes_before(&a));
}

#[test]
fn many_elements_come_out_sorted() {
    let mut queue = OpenList::new();
    let mut expected = Vec::new();
    let mut x: usize = 12345;
    for index in 0..500usize {
        x = (x * 1103515245 + 12345) % 2147483648;
        let estimate = x % 17;
        queue.push(Element { index, estimate });
        expected.push((estimate, index));
    }
    expected.sort();
    assert_eq!(queue.len(), 500);
    assert_eq!(drain(&mut queue), expected);
}

#[test]
fn equal_elements_are_both_kept() {
    let mut queue = OpenList::new();
    queue.push(Element { index: 1, estimate: 1 });
    queue.push(Element { index: 1, estimate: 1 });
    assert_eq!(queue.len(), 2);
    assert_eq!(drain(&mut queue), vec![(1, 1), (1, 1)]);
}

#[test]
fn pushes_and_pops_interleave() {
    let mut queue = OpenList::new();
    queue.push(Element { index: 0, estimate: 4 });
    queue.push(Element { index: 1, estimate: 2 });
    assert_eq!(queue.pop(), Some(Element { index: 1, estimate: 2 }));
    queue.push(Element { index: 2, estimate: 1 });
    queue.push(Element { index: 3, estimate: 9 });
    assert_eq!(queue.pop(), Some(Element { index: 2, estimate: 1 }));
    assert_eq!(queue.pop(), Some(Element { index: 0, estimate: 4 }));
    assert_eq!(queue.pop(), Some(Element { index: 3, estimate: 9 }));
    assert!(queue.is_empty());
}
