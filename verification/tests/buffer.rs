use chat_tunnel::buffer::collect_slice;
use chat_tunnel::buffer::collect_slice_try;
use chat_tunnel::buffer::gather;

#[test]
fn collect_slice_stops_when_the_slice_is_full() {
    let mut slice = [0u8; 3];
    let count = collect_slice(&mut slice, vec![1u8, 2, 3, 4, 5].into_iter());
    assert_eq!(count, 3);
    assert_eq!(slice, [1, 2, 3]);
}

#[test]
fn collect_slice_try_returns_the_first_failure() {
    let mut slice = [0u8; 4];
    let items: Vec<Result<u8, u32>> = vec![Ok(7), Err(1), Ok(9), Err(2)];
    let result = collect_slice_try(&mut slice, items.into_iter());
    assert_eq!(result, Err(1));
    assert_eq!(slice, [7, 0, 0, 0]);
}

#[test]
fn collect_slice_stops_when_the_items_run_out() {
    let mut slice = [9u8; 4];
    let count = collect_slice(&mut slice, vec![1u8, 2].into_iter());
    assert_eq!(count, 2);
    assert_eq!(slice, [1, 2, 9, 9]);
    assert_eq!(collect_slice(&mut slice, Vec::<u8>::new().into_iter()), 0);
    assert_eq!(slice, [1, 2, 9, 9]);
    let mut empty: [u8; 0] = [];
    assert_eq!(collect_slice(&mut empty, vec![1u8].into_iter()), 0);
}

#[test]
fn collect_slice_takes_one_item_more_than_fits() {
    let mut items = vec![1u8, 2, 3, 4, 5].into_iter();
    let mut slice = [0u8; 2];
    assert_eq!(collect_slice(&mut slice, items.by_ref()), 2);
    assert_eq!(items.next(), Some(4));
}

#[test]
fn collect_slice_try_collects_successes() {
    let mut slice = [0u8; 3];
    let items: Vec<Result<u8, u32>> = vec![Ok(7), Ok(8)];
    assert_eq!(collect_slice_try(&mut slice, items.into_iter()), Ok(2));
    assert_eq!(slice, [7, 8, 0]);
}

#[test]
fn collect_slice_try_does_not_look_past_the_slice() {
    let mut slice = [0u8; 2];
    let items: Vec<Result<u8, u32>> = vec![Ok(7), Ok(8), Err(3), Ok(9)];
    assert_eq!(collect_slice_try(&mut slice, items.into_iter()), Ok(2));
    assert_eq!(slice, [7, 8]);
}

#[test]
fn gather_puts_an_item_behind_the_others() {
    assert_eq!(gather(vec![1u8, 2], 3), vec![1, 2, 3]);
    assert_eq!(gather(Vec::new(), 'a'), vec!['a']);
    assert_eq!([4u8, 5, 6].iter().copied().fold(Vec::new(), gather), vec![4, 5, 6]);
}
