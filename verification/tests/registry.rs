use candid::Principal;
use middleware::methods::canister::{
    _add_middleware_instances_manually, _update_metadata, begin_add_middleware_instance,
    canister_created, canister_deleted, canister_stopped, code_installed, cycles_deposited,
    get_metadata, get_middleware_instances, instance_canister, instance_settings,
    send_cycles_request, settings_updated,
};
use middleware::methods::middleware_instance_canister::call_request;
use middleware::methods::INIT_CYCLES_BALANCE;
use middleware::types::management::{
    CanisterSettingsArgs, CreateCanisterRequest, DepositCyclesRequest, InstallCodeRequest,
    InstallMode, InstanceCallRequest, NewInstance, UpdateSettingsRequest,
};
use middleware::types::errors::{MiddlewareError, UtilsError};
use middleware::types::middleware_instance::MiddlewareInstance;
use middleware::types::{MetadataCell, MiddlewareMap, State, UpdateMetadata};
use ic_stable_structures::memory_manager::{MemoryId, MemoryManager};
use ic_stable_structures::{DefaultMemoryImpl, StableBTreeMap, StableCell};
use middleware::utils::new_id;

const USER: &str = "0x52908400098527886E0F7030069857D2E4169EE7";
const USER_NORMALIZED: &str = "0x52908400098527886e0f7030069857d2e4169ee7";

fn principal(b: u8) -> Principal {
    Principal::from_slice(&[b])
}

fn canister(b: u8) -> Vec<u8> {
    principal(b).as_slice().to_vec()
}

fn instance(id: u64, b: u8, user: &str) -> MiddlewareInstance {
    MiddlewareInstance { id, canister_id: canister(b), user: user.to_string() }
}

/// The CBOR encoding of metadata without fields: an empty map.
fn empty_metadata() -> Vec<u8> {
    let mut bytes = vec![];
    ciborium::ser::into_writer(&std::collections::BTreeMap::<u8, u8>::new(), &mut bytes).unwrap();
    bytes
}

/// A state over the metadata cell in memory 1 and the map in memory 2.
fn open_state(manager: &MemoryManager<DefaultMemoryImpl>) -> State {
    State::new(
        MetadataCell {
            cell: StableCell::init(manager.get(MemoryId::new(1)), empty_metadata()).unwrap(),
        },
        MiddlewareMap { map: StableBTreeMap::init(manager.get(MemoryId::new(2))) },
    )
}

fn fresh_state() -> State {
    open_state(&MemoryManager::init(DefaultMemoryImpl::default()))
}

#[test]
fn new_state_is_empty() {
    let state = fresh_state();
    assert_eq!(state.id_counter, 0);
    assert!(state.middlewares.map.is_empty());
    assert_eq!(get_metadata(&state), vec![0xa0]);
}

#[test]
fn new_ids_count_up_from_one() {
    let mut state = fresh_state();
    assert_eq!(new_id(&mut state), 1);
    assert_eq!(new_id(&mut state), 2);
    assert_eq!(state.id_counter, 2);
}

#[test]
fn update_metadata_needs_a_controller() {
    let mut state = fresh_state();
    assert_eq!(
        _update_metadata(&mut state, false, UpdateMetadata {}),
        Err(MiddlewareError::UtilsError(UtilsError::NotAController))
    );
    assert_eq!(_update_metadata(&mut state, true, UpdateMetadata {}), Ok(()));
    assert_eq!(get_metadata(&state), empty_metadata());
}

#[test]
fn begin_add_refuses_other_callers() {
    let mut state = fresh_state();
    assert_eq!(
        begin_add_middleware_instance(&mut state, false, USER, INIT_CYCLES_BALANCE),
        Err(MiddlewareError::UtilsError(UtilsError::NotAController))
    );
    assert_eq!(state.id_counter, 0);
}

#[test]
fn begin_add_refuses_bad_address() {
    let mut state = fresh_state();
    assert_eq!(
        begin_add_middleware_instance(&mut state, true, "0x12", INIT_CYCLES_BALANCE),
        Err(MiddlewareError::UtilsError(UtilsError::InvalidAddressFormat(
            "Invalid input length".to_string()
        )))
    );
    assert_eq!(state.id_counter, 0);
}

#[test]
fn begin_add_refuses_too_few_cycles() {
    let mut state = fresh_state();
    assert_eq!(
        begin_add_middleware_instance(&mut state, true, USER, INIT_CYCLES_BALANCE - 1),
        Err(MiddlewareError::NotEnoughCycles(INIT_CYCLES_BALANCE - 1, INIT_CYCLES_BALANCE))
    );
    assert_eq!(state.id_counter, 0);
}

#[test]
fn add_flow_registers_instance() {
    let mut state = fresh_state();
    let start =
        begin_add_middleware_instance(&mut state, true, USER, INIT_CYCLES_BALANCE + 7).unwrap();
    assert_eq!(
        start,
        NewInstance {
            id: 1,
            user: USER_NORMALIZED.to_string(),
            cycles_to_accept: INIT_CYCLES_BALANCE,
            create: CreateCanisterRequest { settings: None, cycles: INIT_CYCLES_BALANCE },
        }
    );
    let install = canister_created(Ok(canister(7)), vec![0, 0x61, 0x73, 0x6d]).unwrap();
    assert_eq!(
        install,
        InstallCodeRequest {
            mode: InstallMode::Install,
            canister_id: canister(7),
            wasm_module: vec![0, 0x61, 0x73, 0x6d],
            arg: vec![],
        }
    );
    assert_eq!(
        code_installed(&mut state, start.id, start.user, install.canister_id.clone(), Ok(())),
        Ok(())
    );
    let found = state.get_middleware_instance(1).unwrap();
    assert_eq!(found.id, 1);
    assert_eq!(found.canister_id, canister(7));
    assert_eq!(found.user, USER_NORMALIZED);
    let settings =
        instance_settings(Ok(vec![principal(1)]), principal(9), install.canister_id).unwrap();
    assert_eq!(
        settings,
        UpdateSettingsRequest {
            canister_id: canister(7),
            settings: CanisterSettingsArgs {
                controllers: Some(vec![principal(1), principal(9)]),
                compute_allocation: None,
                memory_allocation: None,
                freezing_threshold: None,
            },
        }
    );
    assert_eq!(settings_updated(1, Ok(())), Ok(1));
}

#[test]
fn add_flow_errors() {
    let mut state = fresh_state();
    assert_eq!(
        canister_created(Err("no cycles".to_string()), vec![1]),
        Err(MiddlewareError::FailedToCreate("no cycles".to_string()))
    );
    assert_eq!(
        code_installed(&mut state, 1, USER_NORMALIZED.to_string(), canister(7), Err("bad wasm".to_string())),
        Err(MiddlewareError::FailedToInstallCode("bad wasm".to_string()))
    );
    assert!(state.middlewares.map.is_empty());
    assert_eq!(
        instance_settings(Err("down".to_string()), principal(9), canister(7)),
        Err(MiddlewareError::FailedToGetCanisterStatus("down".to_string()))
    );
    assert_eq!(
        settings_updated(3, Err("denied".to_string())),
        Err(MiddlewareError::FailedToUpdateSettings("denied".to_string()))
    );
}

#[test]
fn cycles_are_sent_only_for_a_controller() {
    assert_eq!(
        send_cycles_request(true, principal(3), 1_000),
        Ok(DepositCyclesRequest { canister_id: principal(3), cycles: 1_000 })
    );
    assert_eq!(
        send_cycles_request(false, principal(3), 1_000),
        Err(MiddlewareError::UtilsError(UtilsError::NotAController))
    );
}

#[test]
fn calls_are_forwarded_to_the_instance_method() {
    let mut state = fresh_state();
    _add_middleware_instances_manually(&mut state, true, vec![instance(4, 4, "a")]).unwrap();
    assert_eq!(
        call_request(&state, true, 4, vec![9, 8]),
        Ok(InstanceCallRequest { canister_id: canister(4), method: "call".to_string(), args: vec![9, 8] })
    );
    assert_eq!(
        call_request(&state, false, 4, vec![9, 8]),
        Err(MiddlewareError::UtilsError(UtilsError::NotAController))
    );
    assert_eq!(call_request(&state, true, 5, vec![]), Err(MiddlewareError::MiddlewareNotFound(5)));
}

#[test]
fn cycles_deposit_outcomes() {
    assert_eq!(cycles_deposited(Ok(())), Ok(()));
    assert_eq!(
        cycles_deposited(Err("rejected".to_string())),
        Err(MiddlewareError::FailedToSendCycles("rejected".to_string()))
    );
}

#[test]
fn remove_flow_unregisters_instance() {
    let mut state = fresh_state();
    _add_middleware_instances_manually(&mut state, true, vec![instance(4, 4, "a"), instance(6, 6, "b")])
        .unwrap();
    assert_eq!(instance_canister(&state, true, 4), Ok(canister(4)));
    assert_eq!(canister_stopped(Ok(())), Ok(()));
    assert_eq!(canister_deleted(&mut state, 4, Ok(())), Ok(()));
    assert_eq!(
        state.get_middleware_instance(4).map(|i| i.id),
        Err(MiddlewareError::MiddlewareNotFound(4))
    );
    assert_eq!(state.get_middleware_instance(6).map(|i| i.id), Ok(6));
}

#[test]
fn remove_flow_errors() {
    let mut state = fresh_state();
    _add_middleware_instances_manually(&mut state, true, vec![instance(4, 4, "a")]).unwrap();
    assert_eq!(
        instance_canister(&state, false, 4),
        Err(MiddlewareError::UtilsError(UtilsError::NotAController))
    );
    assert_eq!(instance_canister(&state, true, 5), Err(MiddlewareError::MiddlewareNotFound(5)));
    assert_eq!(
        canister_stopped(Err("busy".to_string())),
        Err(MiddlewareError::FailedToStop("busy".to_string()))
    );
    assert_eq!(
        canister_deleted(&mut state, 4, Err("busy".to_string())),
        Err(MiddlewareError::FailedToDelete("busy".to_string()))
    );
    assert_eq!(state.get_middleware_instance(4).map(|i| i.id), Ok(4));
}

#[test]
fn manual_adds_need_a_controller() {
    let mut state = fresh_state();
    assert_eq!(
        _add_middleware_instances_manually(&mut state, false, vec![instance(1, 1, "a")]),
        Err(MiddlewareError::UtilsError(UtilsError::NotAController))
    );
    assert!(state.middlewares.map.is_empty());
}

#[test]
fn manual_adds_later_one_wins() {
    let mut state = fresh_state();
    _add_middleware_instances_manually(
        &mut state,
        true,
        vec![instance(2, 1, "first"), instance(2, 2, "second")],
    )
    .unwrap();
    let found = state.get_middleware_instance(2).unwrap();
    assert_eq!(found.user, "second");
    assert_eq!(found.canister_id, canister(2));
}

#[test]
fn listing_is_ordered_by_id() {
    let mut state = fresh_state();
    _add_middleware_instances_manually(
        &mut state,
        true,
        vec![instance(9, 9, "c"), instance(3, 3, "a"), instance(5, 5, "b")],
    )
    .unwrap();
    let list = get_middleware_instances(&state);
    let ids: Vec<u64> = list.iter().map(|r| r.id).collect();
    assert_eq!(ids, vec![3, 5, 9]);
    assert_eq!(list[1].middleware_instance_example.user, "b");
    assert_eq!(list[2].middleware_instance_example.canister_id, canister(9));
}

#[test]
fn instances_survive_reopening_the_map() {
    let manager = MemoryManager::init(DefaultMemoryImpl::default());
    let mut state = open_state(&manager);
    _add_middleware_instances_manually(&mut state, true, vec![instance(8, 8, "kept")]).unwrap();
    let reopened = open_state(&manager);
    assert_eq!(reopened.id_counter, 0);
    assert_eq!(reopened.get_middleware_instance(8).unwrap().user, "kept");
}

#[test]
fn metadata_cell_keeps_what_was_stored() {
    let manager = MemoryManager::init(DefaultMemoryImpl::default());
    let mut state = open_state(&manager);
    state.metadata.cell.set(vec![0xa1, 0x61, 0x61, 0x01]).unwrap();
    let reopened = open_state(&manager);
    assert_eq!(get_metadata(&reopened), vec![0xa1, 0x61, 0x61, 0x01]);
}

#[test]
fn listing_of_empty_state_is_empty() {
    assert!(get_middleware_instances(&fresh_state()).is_empty());
}
