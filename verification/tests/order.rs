use details_table::order::sort_order;

#[test]
fn no_keys_no_order() {
    assert_eq!(sort_order(&vec![]), vec![]);
}

#[test]
fn keys_ascend() {
    assert_eq!(sort_order(&vec![30, 10, 20]), vec![1, 2, 0]);
    assert_eq!(sort_order(&vec![1, 2, 3, 4]), vec![0, 1, 2, 3]);
    assert_eq!(sort_order(&vec![4, 3, 2, 1]), vec![3, 2, 1, 0]);
    assert_eq!(sort_order(&vec![u64::MAX, 0]), vec![1, 0]);
}

#[test]
fn equal_keys_stay_in_order_of_arrival() {
    assert_eq!(sort_order(&vec![5, 5, 5]), vec![0, 1, 2]);
    assert_eq!(sort_order(&vec![2, 1, 2, 1, 2]), vec![1, 3, 0, 2, 4]);
}

#[test]
fn distinct_keys_give_the_same_listing_however_they_arrive() {
    let names = ["c", "a", "d", "b"];
    let keys: Vec<u64> = vec![2, 0, 3, 1];
    let arrivals: [[usize; 4]; 4] = [[0, 1, 2, 3], [3, 2, 1, 0], [1, 3, 0, 2], [2, 0, 3, 1]];
    for arrival in arrivals.iter() {
        let arrived: Vec<u64> = arrival.iter().map(|&i| keys[i]).collect();
        let listed: Vec<&str> =
            sort_order(&arrived).iter().map(|&p| names[arrival[p]]).collect();
        assert_eq!(listed, vec!["a", "b", "c", "d"]);
    }
}
