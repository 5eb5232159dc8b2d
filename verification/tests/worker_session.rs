use frog::entities::client::{ClientEntity, ClientId};
use frog::entities::session::{SessionEntity, SessionId, SessionStatus};
use frog::worker::errors::AppError;
use frog::worker::session::{
    collect_bs_key_shares, collect_computation_inputs, finish_bs_key_aggregation,
    finish_computation, operand_pair, order_shares, share_order,
};

fn session_with(clients: &[(usize, Vec<u8>, Vec<u8>)]) -> SessionEntity {
    let mut s = SessionEntity::new(SessionId(5), vec![1]);
    for (id, bs, data) in clients {
        let mut c = ClientEntity::new(ClientId(*id), vec![], vec![]);
        c.bs_key_share = bs.clone();
        c.encrypted_data = data.clone();
        s.client_info.insert(*id, c);
    }
    s
}

#[test]
fn only_sent_shares_are_aggregated() {
    let s = session_with(&[(1, vec![10], vec![]), (2, vec![], vec![]), (3, vec![30, 31], vec![])]);
    let mut shares = collect_bs_key_shares(&s).unwrap();
    shares.sort();
    assert_eq!(shares, vec![vec![10], vec![30, 31]]);
}

#[test]
fn only_sent_inputs_are_computed_on() {
    let s = session_with(&[(1, vec![], vec![4]), (2, vec![], vec![]), (3, vec![], vec![6])]);
    let mut inputs = collect_computation_inputs(&s).unwrap();
    inputs.sort();
    assert_eq!(inputs, vec![vec![4], vec![6]]);
}

#[test]
fn missing_server_is_refused() {
    let mut s = session_with(&[(1, vec![1], vec![1])]);
    s.phantom_server = None;
    match collect_bs_key_shares(&s) {
        Err(AppError::UnexpectedError(m)) => assert_eq!(m, "Phantom server is missing"),
        _ => panic!("expected an unexpected error"),
    }
    match collect_computation_inputs(&s) {
        Err(AppError::UnexpectedError(m)) => assert_eq!(m, "Phantom server is missing"),
        _ => panic!("expected an unexpected error"),
    }
}

#[test]
fn shares_are_ordered_by_index_stably() {
    assert_eq!(share_order(&vec![5, 3, 5, 1]), vec![3, 1, 0, 2]);
    assert_eq!(share_order(&vec![]), Vec::<usize>::new());
    assert_eq!(share_order(&vec![2, 2, 2]), vec![0, 1, 2]);
    assert_eq!(share_order(&vec![3, 2, 1, 0]), vec![3, 2, 1, 0]);
}

#[test]
fn share_order_matches_a_stable_sort() {
    let keys = vec![4usize, 0, 9, 4, 1, 0, 7, 4];
    let mut expected: Vec<usize> = (0..keys.len()).collect();
    expected.sort_by_key(|&i| keys[i]);
    assert_eq!(share_order(&keys), expected);
}

#[test]
fn operands_are_the_first_two_inputs() {
    match operand_pair(&vec![]) {
        Err(AppError::UnexpectedError(m)) => assert_eq!(m, "Missing first ciphertext"),
        _ => panic!("expected a missing first operand"),
    }
    match operand_pair(&vec![vec![1]]) {
        Err(AppError::UnexpectedError(m)) => assert_eq!(m, "Missing second ciphertext"),
        _ => panic!("expected a missing second operand"),
    }
    match operand_pair(&vec![vec![1], vec![2, 2], vec![3]]) {
        Ok((a, b)) => {
            assert_eq!(a, vec![1]);
            assert_eq!(b, vec![2, 2]);
        }
        _ => panic!("expected two operands"),
    }
}

#[test]
fn aggregation_and_computation_move_the_status() {
    let mut s = session_with(&[(1, vec![1], vec![2])]);
    finish_bs_key_aggregation(&mut s, vec![42]);
    assert_eq!(s.status, SessionStatus::WaitingForArgument);
    assert_eq!(s.phantom_server, Some(vec![42]));
    finish_computation(&mut s, vec![vec![1], vec![0]]);
    assert_eq!(s.status, SessionStatus::Done);
    assert_eq!(s.encrypted_result, vec![vec![1], vec![0]]);
    assert_eq!(s.phantom_server, Some(vec![42]));
}

#[test]
fn shares_are_put_in_index_order() {
    let shares = vec![vec![1], vec![2], vec![3], vec![4]];
    assert_eq!(order_shares(&shares, &vec![5, 3, 5, 1]), vec![vec![4], vec![2], vec![1], vec![3]]);
    assert_eq!(order_shares(&vec![], &vec![]), Vec::<Vec<u8>>::new());
    assert_eq!(order_shares(&shares, &vec![0, 1, 2, 3]), shares);
}

#[test]
fn ordered_shares_do_not_depend_on_the_walk() {
    // The share index of a share is its first byte here; distinct clients have
    // distinct indices.
    let clients = [(1, vec![7, 0], vec![]), (2, vec![], vec![]), (3, vec![2, 9], vec![]), (4, vec![5], vec![])];
    let mut reversed = clients.clone();
    reversed.reverse();
    let mut outcomes = Vec::new();
    for order in [clients.to_vec(), reversed.to_vec()] {
        for extra in 0..8usize {
            let mut all = order.clone();
            // Clients without a share change the map and so its walk.
            for k in 0..extra {
                all.push((100 + k, vec![], vec![]));
            }
            let s = session_with(&all);
            let shares = collect_bs_key_shares(&s).unwrap();
            let indices: Vec<usize> = shares.iter().map(|b| b[0] as usize).collect();
            outcomes.push(order_shares(&shares, &indices));
        }
    }
    for o in &outcomes {
        assert_eq!(o, &vec![vec![2, 9], vec![5], vec![7, 0]]);
    }
}

#[test]
fn equal_shares_with_equal_indices_come_out_the_same() {
    // Two clients sent the same share, so their indices are equal too.
    let clients = [(1, vec![7, 0], vec![]), (2, vec![5, 1], vec![]), (3, vec![2, 9], vec![]), (4, vec![5, 1], vec![])];
    let mut reversed = clients.clone();
    reversed.reverse();
    for order in [clients.to_vec(), reversed.to_vec()] {
        for extra in 0..8usize {
            let mut all = order.clone();
            for k in 0..extra {
                all.push((100 + k, vec![], vec![]));
            }
            let s = session_with(&all);
            let shares = collect_bs_key_shares(&s).unwrap();
            let indices: Vec<usize> = shares.iter().map(|b| b[0] as usize).collect();
            assert_eq!(
                order_shares(&shares, &indices),
                vec![vec![2, 9], vec![5, 1], vec![5, 1], vec![7, 0]]
            );
        }
    }
}
