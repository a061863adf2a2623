use tpp_bot_beard::search::sorted_names;
use tpp_bot_beard::sorting::sort_order;

fn cs(s: &str) -> Vec<char> {
    s.chars().collect()
}

#[test]
fn sort_order_is_ascending_and_stable() {
    let keys: Vec<Vec<char>> = ["b", "a", "c", "a", "b", "", "a"].iter().map(|s| cs(s)).collect();
    assert_eq!(sort_order(&keys), vec![5, 1, 3, 6, 0, 4, 2]);
}

#[test]
fn sort_order_of_nothing_and_of_one() {
    assert_eq!(sort_order(&vec![]), Vec::<usize>::new());
    assert_eq!(sort_order(&vec![cs("x")]), vec![0]);
}

#[test]
fn sort_order_is_a_permutation() {
    let keys: Vec<Vec<char>> =
        ["delta", "alpha", "echo", "bravo", "alpha", "charlie"].iter().map(|s| cs(s)).collect();
    let mut order = sort_order(&keys);
    order.sort();
    assert_eq!(order, vec![0, 1, 2, 3, 4, 5]);
}

#[test]
fn sorted_names_agrees_with_std() {
    let names: Vec<String> = ["Zoa", "abc", "Dark Magician", "Dark", "dark", "Éclair", "", "Dark"]
        .iter()
        .map(|s| s.to_string())
        .collect();
    let mut want = names.clone();
    want.sort();
    assert_eq!(sorted_names(&names), want);
    assert_eq!(
        sorted_names(&names),
        vec!["", "Dark", "Dark", "Dark Magician", "Zoa", "abc", "dark", "Éclair"]
    );
}
