use frog::client::flow::{ClientFlow, FlowAction, FlowEvent, FlowStep};
use frog::entities::session::SessionStatus;

#[test]
fn the_protocol_in_order() {
    let (mut f, a) = ClientFlow::new(1);
    assert_eq!(a, FlowAction::JoinSession);
    assert_eq!(f.step(FlowEvent::Completed), FlowAction::PollStatus);
    assert_eq!(
        f.step(FlowEvent::StatusObserved(SessionStatus::WaitingForClients)),
        FlowAction::WaitThenPollStatus
    );
    assert_eq!(f.step(FlowEvent::StatusObserved(SessionStatus::WaitingForBootstrap)), FlowAction::UpdatePk);
    assert_eq!(f.step(FlowEvent::Completed), FlowAction::SendBootstrapKey);
    assert_eq!(f.step(FlowEvent::Completed), FlowAction::PollStatus);
    assert_eq!(f.step(FlowEvent::StatusObserved(SessionStatus::WaitingForArgument)), FlowAction::SendSecretData);
    assert_eq!(f.step(FlowEvent::Completed), FlowAction::PollStatus);
    assert_eq!(
        f.step(FlowEvent::StatusObserved(SessionStatus::WaitingForArgument)),
        FlowAction::WaitThenPollStatus
    );
    assert_eq!(f.step(FlowEvent::StatusObserved(SessionStatus::Done)), FlowAction::FetchEncryptedResult);
    assert_eq!(f.step(FlowEvent::Completed), FlowAction::RequestShare(0));
    assert_eq!(f.step(FlowEvent::ShareReceived(None)), FlowAction::WaitThenRequestShare(0));
    assert_eq!(f.step(FlowEvent::ShareReceived(Some(vec![]))), FlowAction::WaitThenRequestShare(0));
    assert_eq!(f.step(FlowEvent::ShareReceived(Some(vec![3, 4]))), FlowAction::DecryptResult);
    assert_eq!(f.shares, vec![vec![3, 4]]);
    assert_eq!(f.step, FlowStep::Decrypt);
    assert_eq!(f.step(FlowEvent::Completed), FlowAction::Stop);
    assert_eq!(f.step, FlowStep::Finished);
    assert_eq!(f.step(FlowEvent::Completed), FlowAction::Stop);
}

#[test]
fn waiting_ignores_other_events() {
    let (mut f, _) = ClientFlow::new(2);
    f.step(FlowEvent::Completed);
    assert_eq!(f.step(FlowEvent::Completed), FlowAction::PollStatus);
    assert_eq!(f.step(FlowEvent::ShareReceived(Some(vec![1]))), FlowAction::PollStatus);
    assert_eq!(
        f.step,
        FlowStep::AwaitStatus { awaited: SessionStatus::WaitingForBootstrap }
    );
}

#[test]
fn shares_are_collected_from_every_peer() {
    let (mut f, _) = ClientFlow::new(2);
    f.step = FlowStep::FetchEncryptedResult;
    assert_eq!(f.step(FlowEvent::Completed), FlowAction::RequestShare(0));
    assert_eq!(f.step(FlowEvent::ShareReceived(Some(vec![1]))), FlowAction::RequestShare(1));
    assert_eq!(f.step(FlowEvent::ShareReceived(Some(vec![2]))), FlowAction::DecryptResult);
    assert_eq!(f.shares, vec![vec![1], vec![2]]);
    assert_eq!(f.current_action(), FlowAction::DecryptResult);
}

#[test]
fn no_peers_means_decrypting_at_once() {
    let (mut f, _) = ClientFlow::new(0);
    f.step = FlowStep::FetchEncryptedResult;
    assert_eq!(f.step(FlowEvent::Completed), FlowAction::DecryptResult);
    assert_eq!(f.step(FlowEvent::Completed), FlowAction::DecryptResult);
    assert_eq!(f.step, FlowStep::Decrypt);
}

#[test]
fn decryption_shares_put_the_own_share_last() {
    let (mut f, _) = ClientFlow::new(2);
    f.step = FlowStep::FetchEncryptedResult;
    f.step(FlowEvent::Completed);
    f.step(FlowEvent::ShareReceived(Some(vec![1])));
    f.step(FlowEvent::ShareReceived(Some(vec![2, 3])));
    assert_eq!(f.decryption_shares(&vec![9]), vec![vec![1], vec![2, 3], vec![9]]);
    let (f, _) = ClientFlow::new(0);
    assert_eq!(f.decryption_shares(&vec![4]), vec![vec![4]]);
}
