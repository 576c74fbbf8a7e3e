use rcollection::rc_stack::List;

#[test]
fn basics() {
    let list = List::new();
    assert_eq!(list.head(), None);

    let list = list.prepend(1).prepend(2).prepend(3);
    assert_eq!(list.head(), Some(&3));

    let list = list.tail();
    assert_eq!(list.head(), Some(&2));

    let list = list.tail();
    assert_eq!(list.head(), Some(&1));

    let list = list.tail();
    assert_eq!(list.head(), None);
    let list = list.tail();
    assert_eq!(list.head(), None);
}

#[test]
fn iter() {
    let list = List::new().prepend(1).prepend(2).prepend(3);

    let mut iter = list.iter();
    assert_eq!(iter.next(), Some(&3));
    assert_eq!(iter.next(), Some(&2));
    assert_eq!(iter.next(), Some(&1));
}

#[test]
fn iter_ends_after_last_element() {
    let list = List::new().prepend("a").prepend("b");
    let mut iter = list.iter();
    assert_eq!(iter.next(), Some(&"b"));
    assert_eq!(iter.next(), Some(&"a"));
    assert_eq!(iter.next(), None);
    assert_eq!(iter.next(), None);
}

#[test]
fn empty_list_iterates_nothing() {
    let list: List<u32> = List::new();
    assert_eq!(list.iter().next(), None);
}

#[test]
fn tail_undoes_prepend() {
    let base = List::new().prepend(10).prepend(20);
    let grown = base.prepend(30);
    let back = grown.tail();
    let mut a = back.iter();
    let mut b = base.iter();
    assert_eq!(a.next(), b.next());
    assert_eq!(a.next(), b.next());
    assert_eq!(a.next(), None);
    assert_eq!(b.next(), None);
    assert_eq!(grown.head(), Some(&30));
}

#[test]
fn prepend_leaves_original_untouched() {
    let base = List::new().prepend(1);
    let left = base.prepend(2);
    let right = base.prepend(3);
    assert_eq!(base.head(), Some(&1));
    assert_eq!(left.head(), Some(&2));
    assert_eq!(right.head(), Some(&3));
    assert_eq!(left.tail().head(), Some(&1));
    assert_eq!(right.tail().head(), Some(&1));
}

#[test]
fn long_list_round_trip() {
    let mut list = List::new();
    for i in 0..1000u32 {
        list = list.prepend(i);
    }
    let mut expected = 999u32;
    let mut iter = list.iter();
    while let Some(x) = iter.next() {
        assert_eq!(*x, expected);
        if expected == 0 {
            break;
        }
        expected -= 1;
    }
    assert_eq!(expected, 0);
    assert_eq!(iter.next(), None);
}

#[test]
fn dropping_a_long_list_does_not_overflow() {
    let mut list = List::new();
    for i in 0..1_000_000u32 {
        list = list.prepend(i);
    }
    assert_eq!(list.head(), Some(&999_999));
    drop(list);
}

#[test]
fn dropping_one_list_keeps_the_shared_tail() {
    let shared = List::new().prepend(1).prepend(2);
    let a = shared.prepend(3);
    let b = shared.prepend(4);
    drop(shared);
    drop(a);
    let mut iter = b.iter();
    assert_eq!(iter.next(), Some(&4));
    assert_eq!(iter.next(), Some(&2));
    assert_eq!(iter.next(), Some(&1));
    assert_eq!(iter.next(), None);
}

#[test]
fn iteration_stays_exhausted() {
    let list = List::new().prepend(7u8);
    let mut iter = list.iter();
    assert_eq!(iter.next(), Some(&7));
    for _ in 0..5 {
        assert_eq!(iter.next(), None);
    }
}
