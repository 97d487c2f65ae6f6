use ic_cdk::api::call::RejectionCode;
use middleware::methods::middleware_instance_canister::middleware_instance_replied;
use middleware::types::errors::{CanisterCommunicationError, MiddlewareError, UtilsError};
use middleware::utils::canister::validate_caller;
use middleware::utils::retry::{should_retry, MAX_RETRIES};

#[test]
fn reply_bytes_are_returned() {
    assert_eq!(middleware_instance_replied(Ok(Ok(vec![1, 2, 3]))), Ok(vec![1, 2, 3]));
}

#[test]
fn instance_error_is_reported() {
    assert_eq!(
        middleware_instance_replied(Ok(Err("bad input".to_string()))),
        Err(MiddlewareError::MiddlewareInstanceError("bad input".to_string()))
    );
}

#[test]
fn transport_error_is_reported() {
    assert_eq!(
        middleware_instance_replied(Err("canister stopped".to_string())),
        Err(MiddlewareError::CommunicationWithMiddlewareInstanceFailed(
            "canister stopped".to_string()
        ))
    );
}

#[test]
fn transient_errors_are_retried() {
    assert!(should_retry("(SysTransient, \"Couldn't send message\")", 0));
    assert!(should_retry("Timeout expired while waiting", 4));
    assert!(should_retry("Exchange rate canister error: pending", 2));
    assert!(should_retry("No response from the subnet", 1));
    assert!(should_retry("nonce too low: already known", 1));
    assert!(should_retry("Canister http responses were different across replicas", 3));
}

#[test]
fn retries_stop_after_the_limit() {
    assert_eq!(MAX_RETRIES, 5);
    assert!(!should_retry("SysTransient", 5));
    assert!(!should_retry("SysTransient", 6));
}

#[test]
fn other_errors_are_not_retried() {
    assert!(!should_retry("(CanisterReject, \"no\")", 0));
    assert!(!should_retry("", 0));
    assert!(!should_retry("systransient", 0));
}

#[test]
fn rejection_keeps_only_the_message() {
    let err = CanisterCommunicationError::from((RejectionCode::CanisterError, "trapped".to_string()));
    assert_eq!(err.message, "trapped");
}

#[test]
fn utils_error_converts_to_middleware_error() {
    assert_eq!(
        MiddlewareError::from(UtilsError::NotAController),
        MiddlewareError::UtilsError(UtilsError::NotAController)
    );
}

#[test]
fn only_controllers_pass() {
    assert_eq!(validate_caller(true), Ok(()));
    assert_eq!(validate_caller(false), Err(UtilsError::NotAController));
}
