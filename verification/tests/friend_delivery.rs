//! Private messages to friends.
use miliastra::friend_delivery::FriendBatchFailure;
use miliastra::friend_delivery::FriendBatchFailureKind;
use miliastra::friend_delivery::FriendMessage;

#[test]
fn a_message_keeps_whom_it_is_for() {
    let message = FriendMessage::new("友", "你好");
    assert_eq!(message.recipient(), "友");
    assert_eq!(message.message(), "你好");
    let failure = FriendBatchFailure::new(FriendBatchFailureKind::ResultUnknown, "超时");
    assert_eq!(failure.kind(), FriendBatchFailureKind::ResultUnknown);
    assert_eq!(failure.reason(), "超时");
}
