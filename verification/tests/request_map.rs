use lsp_muxd::request_map::RequestMap;
use lsp_muxd::rpc::Id;

#[test]
fn ids_are_given_out_from_one_on() {
    let mut map = RequestMap::new();
    assert_eq!(map.insert(5, Id::Number(1)), Id::Number(1));
    assert_eq!(map.insert(5, Id::Number(1)), Id::Number(2));
    assert_eq!(map.insert(6, Id::Null), Id::Number(3));
}

#[test]
fn a_noted_request_comes_back_once() {
    let mut map = RequestMap::new();
    let first = map.insert(5, Id::String("a".to_string()));
    let second = map.insert(6, Id::Number(1));
    assert_eq!(map.remove(&first), Some((5, Id::String("a".to_string()))));
    assert_eq!(map.remove(&first), None);
    assert_eq!(map.remove(&second), Some((6, Id::Number(1))));
}

#[test]
fn answering_one_request_leaves_the_others() {
    let mut map = RequestMap::new();
    let ids: Vec<Id> = (0..5).map(|n| map.insert(n, Id::Number(n as i64 * 10))).collect();
    assert_eq!(map.remove(&ids[2]), Some((2, Id::Number(20))));
    for n in [0u64, 1, 3, 4] {
        assert_eq!(map.remove(&ids[n as usize]), Some((n, Id::Number(n as i64 * 10))));
    }
}

#[test]
fn an_id_is_not_given_out_again_after_its_answer() {
    let mut map = RequestMap::new();
    let first = map.insert(1, Id::Null);
    map.remove(&first);
    assert_eq!(map.insert(1, Id::Null), Id::Number(2));
}

#[test]
fn only_numbers_are_ids_of_the_server() {
    let mut map = RequestMap::new();
    map.insert(5, Id::Number(1));
    assert_eq!(map.remove(&Id::String("1".to_string())), None);
    assert_eq!(map.remove(&Id::Null), None);
    assert_eq!(map.remove(&Id::Number(9)), None);
    assert_eq!(map.remove(&Id::Number(1)), Some((5, Id::Number(1))));
}
