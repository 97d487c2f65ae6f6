//! The decisions of the canister's endpoints that manage middleware instances.

use vstd::prelude::*;

use candid::Principal;

use crate::types::custom_return_types::GetMiddlewareInstanceResult;
use crate::methods::INIT_CYCLES_BALANCE;
use crate::types::errors::{MiddlewareError, UtilsError};
use crate::types::management::{
    CanisterSettingsArgs, CreateCanisterRequest, DepositCyclesRequest, InstallCodeRequest,
    InstallMode, NewInstance, UpdateSettingsRequest,
};
use crate::types::middleware_instance::{MiddlewareInstance, MiddlewareInstanceView};
use crate::types::{insert_all, lookup, register_all_keeps_keys, well_keyed, State, UpdateMetadata};
use crate::utils::address::{h160_bytes, h160_parse_error, h160_text, is_h160_text, normalize};
use crate::utils::canister::validate_caller;
use crate::utils::new_id;
use crate::MiddlewareResult;

verus! {

/// The error with which a caller that does not control the canister is refused.
pub open spec fn not_a_controller() -> MiddlewareError {
    MiddlewareError::UtilsError(UtilsError::NotAController)
}

/// The caller check of the endpoints, as a `MiddlewareError`.
pub(crate) fn authorize(caller_is_controller: bool) -> (res: MiddlewareResult<()>)
    ensures
        res == (if caller_is_controller { Ok(()) } else { Err(not_a_controller()) }),
{
    match validate_caller(caller_is_controller) {
        Ok(()) => Ok(()),
        Err(e) => Err(MiddlewareError::from(e)),
    }
}

/// The canister's metadata, as its cell holds it: CBOR-encoded.
pub fn get_metadata(state: &State) -> (res: Vec<u8>)
    ensures
        res@ == state.metadata@,
{
    state.metadata.get()
}

/// Applies a metadata update for a controller; anyone else is refused. As
/// neither the metadata nor the update has fields yet, the update
/// ([`crate::types::Metadata::update`]) changes nothing, and the cell keeps what it holds.
pub fn _update_metadata(
    state: &mut State,
    caller_is_controller: bool,
    _update_metadata_args: UpdateMetadata,
) -> (res: MiddlewareResult<()>)
    ensures
        res == (if caller_is_controller { Ok(()) } else { Err(not_a_controller()) }),
        final(state).metadata == old(state).metadata,
        final(state).middlewares@ == old(state).middlewares@,
        final(state).id_counter == old(state).id_counter,
{
    authorize(caller_is_controller)?;
    Ok(())
}

/// The request that sends cycles to another canister, made only for a
/// controller: the given amount, to the given canister.
pub fn send_cycles_request(caller_is_controller: bool, destination: Principal, amount: u128) -> (res:
    MiddlewareResult<DepositCyclesRequest>)
    ensures
        !caller_is_controller ==> res == Err::<DepositCyclesRequest, MiddlewareError>(not_a_controller()),
        caller_is_controller ==> (res matches Ok(r) && r.canister_id == destination && r.cycles == amount),
{
    authorize(caller_is_controller)?;
    Ok(DepositCyclesRequest { canister_id: destination, cycles: amount })
}

/// The outcome of depositing cycles into another canister, once a controller
/// asked for it: a refusal by the system becomes `FailedToSendCycles`.
pub fn cycles_deposited(deposit: Result<(), String>) -> (res: MiddlewareResult<()>)
    ensures
        match deposit {
            Ok(()) => res == Ok::<(), MiddlewareError>(()),
            Err(msg) => res matches Err(MiddlewareError::FailedToSendCycles(m)) && m@ == msg@,
        },
{
    match deposit {
        Ok(()) => Ok(()),
        Err(msg) => Err(MiddlewareError::FailedToSendCycles(msg)),
    }
}

/// Registers instances given by a controller, each under its own id, in the
/// order given; anyone else is refused and nothing changes.
pub fn _add_middleware_instances_manually(
    state: &mut State,
    caller_is_controller: bool,
    middleware_instances: Vec<MiddlewareInstance>,
) -> (res: MiddlewareResult<()>)
    ensures
        res == (if caller_is_controller { Ok(()) } else { Err(not_a_controller()) }),
        final(state).middlewares@ == (if caller_is_controller {
            insert_all(old(state).middlewares@, middleware_instances@)
        } else {
            old(state).middlewares@
        }),
        well_keyed(old(state).middlewares@) ==> well_keyed(final(state).middlewares@),
        final(state).metadata == old(state).metadata,
        final(state).id_counter == old(state).id_counter,
{
    authorize(caller_is_controller)?;
    let ghost start = state.middlewares@;
    let ghost given = middleware_instances@;
    for middleware_instance_example in it: middleware_instances
        invariant
            it.seq() == given,
            state.middlewares@ == insert_all(start, given.take(it.index() as int)),
            state.metadata == old(state).metadata,
            state.id_counter == old(state).id_counter,
    {
        proof {
            assert(given.take(it.index() + 1).drop_last() =~= given.take(it.index() as int));
        }
        let MiddlewareInstance { id, canister_id, user } = middleware_instance_example;
        state.middlewares.insert(id, (id, canister_id, user));
    }
    proof {
        assert(given.take(given.len() as int) =~= given);
        if well_keyed(start) {
            register_all_keeps_keys(start, given);
        }
    }
    Ok(())
}

/// The first decisions of adding an instance: the caller must control the
/// canister, the user's address must parse, and the call must carry at least
/// `INIT_CYCLES_BALANCE` cycles. Then a fresh id is drawn; it is returned with
/// the user's normalised address, the cycles to accept (`INIT_CYCLES_BALANCE`)
/// and the request that creates the instance's canister with them, with no
/// settings. On any refusal the state is unchanged.
pub fn begin_add_middleware_instance(
    state: &mut State,
    caller_is_controller: bool,
    user: &str,
    cycles_available: u128,
) -> (res: MiddlewareResult<NewInstance>)
    requires
        caller_is_controller && is_h160_text(user@) && cycles_available >= INIT_CYCLES_BALANCE
            ==> old(state).id_counter < u64::MAX,
    ensures
        !caller_is_controller ==> res == Err::<NewInstance, MiddlewareError>(not_a_controller()),
        caller_is_controller && !is_h160_text(user@) ==> (res matches Err(
            MiddlewareError::UtilsError(UtilsError::InvalidAddressFormat(msg)),
        ) && msg@ == h160_parse_error(user@)),
        caller_is_controller && is_h160_text(user@) && cycles_available < INIT_CYCLES_BALANCE ==> res
            == Err::<NewInstance, MiddlewareError>(
            MiddlewareError::NotEnoughCycles(cycles_available, INIT_CYCLES_BALANCE),
        ),
        caller_is_controller && is_h160_text(user@) && cycles_available >= INIT_CYCLES_BALANCE ==> (
        res matches Ok(n) && {
            &&& n.id == old(state).id_counter + 1
            &&& n.user@ == h160_text(h160_bytes(user@))
            &&& n.cycles_to_accept == INIT_CYCLES_BALANCE
            &&& n.create.settings is None
            &&& n.create.cycles == INIT_CYCLES_BALANCE
        }),
        res is Ok ==> final(state).id_counter == old(state).id_counter + 1,
        res is Err ==> final(state).id_counter == old(state).id_counter,
        final(state).metadata == old(state).metadata,
        final(state).middlewares@ == old(state).middlewares@,
{
    authorize(caller_is_controller)?;
    let user = match normalize(user) {
        Ok(u) => u,
        Err(e) => {
            return Err(MiddlewareError::from(e));
        },
    };
    if cycles_available < INIT_CYCLES_BALANCE {
        return Err(MiddlewareError::NotEnoughCycles(cycles_available, INIT_CYCLES_BALANCE));
    }
    let id = new_id(state);
    Ok(NewInstance {
        id,
        user,
        cycles_to_accept: INIT_CYCLES_BALANCE,
        create: CreateCanisterRequest { settings: None, cycles: INIT_CYCLES_BALANCE },
    })
}

/// The outcome of creating the instance's canister: the request that installs
/// the given code in it (a fresh install, with an empty argument), or
/// `FailedToCreate` with the system's message.
pub fn canister_created(created: Result<Vec<u8>, String>, wasm: Vec<u8>) -> (res: MiddlewareResult<
    InstallCodeRequest,
>)
    ensures
        match created {
            Ok(c) => res matches Ok(r) && {
                &&& r.mode == InstallMode::Install
                &&& r.canister_id@ == c@
                &&& r.wasm_module@ == wasm@
                &&& r.arg@ == Seq::<u8>::empty()
            },
            Err(msg) => res matches Err(MiddlewareError::FailedToCreate(m)) && m@ == msg@,
        },
{
    match created {
        Ok(c) => Ok(InstallCodeRequest { mode: InstallMode::Install, canister_id: c, wasm_module: wasm, arg: Vec::new() }),
        Err(msg) => Err(MiddlewareError::FailedToCreate(msg)),
    }
}

/// The outcome of installing the code: once installed, the instance is
/// registered under its id; otherwise `FailedToInstallCode` and nothing changes.
pub fn code_installed(
    state: &mut State,
    id: u64,
    user: String,
    canister_id: Vec<u8>,
    installed: Result<(), String>,
) -> (res: MiddlewareResult<()>)
    ensures
        match installed {
            Ok(()) => {
                &&& res == Ok::<(), MiddlewareError>(())
                &&& final(state).middlewares@ == old(state).middlewares@.insert(
                    id,
                    (id, canister_id@, user@),
                )
            },
            Err(msg) => {
                &&& res matches Err(MiddlewareError::FailedToInstallCode(m)) && m@ == msg@
                &&& final(state).middlewares@ == old(state).middlewares@
            },
        },
        well_keyed(old(state).middlewares@) ==> well_keyed(final(state).middlewares@),
        final(state).metadata == old(state).metadata,
        final(state).id_counter == old(state).id_counter,
{
    match installed {
        Ok(()) => {
            state.middlewares.insert(id, (id, canister_id, user));
            Ok(())
        },
        Err(msg) => Err(MiddlewareError::FailedToInstallCode(msg)),
    }
}

/// The request that sets the new canister's controllers: those of this
/// canister, as its status lists them, followed by this canister itself; the
/// other settings are left as they are. `FailedToGetCanisterStatus` when the
/// status could not be read.
pub fn instance_settings(
    status_controllers: Result<Vec<Principal>, String>,
    own_id: Principal,
    canister_id: Vec<u8>,
) -> (res: MiddlewareResult<UpdateSettingsRequest>)
    ensures
        match status_controllers {
            Ok(c) => res matches Ok(r) && {
                &&& r.canister_id@ == canister_id@
                &&& r.settings.controllers matches Some(cs) && cs@ == c@.push(own_id)
                &&& r.settings.compute_allocation is None
                &&& r.settings.memory_allocation is None
                &&& r.settings.freezing_threshold is None
            },
            Err(msg) => res matches Err(MiddlewareError::FailedToGetCanisterStatus(m)) && m@ == msg@,
        },
{
    match status_controllers {
        Ok(controllers) => {
            let mut controllers = controllers;
            controllers.push(own_id);
            Ok(UpdateSettingsRequest {
                canister_id,
                settings: CanisterSettingsArgs {
                    controllers: Some(controllers),
                    compute_allocation: None,
                    memory_allocation: None,
                    freezing_threshold: None,
                },
            })
        },
        Err(msg) => Err(MiddlewareError::FailedToGetCanisterStatus(msg)),
    }
}

/// The end of adding an instance: its id once the controllers are set, or
/// `FailedToUpdateSettings`.
pub fn settings_updated(id: u64, updated: Result<(), String>) -> (res: MiddlewareResult<u64>)
    ensures
        match updated {
            Ok(()) => res == Ok::<u64, MiddlewareError>(id),
            Err(msg) => res matches Err(MiddlewareError::FailedToUpdateSettings(m)) && m@ == msg@,
        },
{
    match updated {
        Ok(()) => Ok(id),
        Err(msg) => Err(MiddlewareError::FailedToUpdateSettings(msg)),
    }
}

/// The first decisions of a call that works on an instance (removing it, or
/// forwarding a call to it): the caller must control the canister and the
/// instance must be registered. Gives the instance's canister.
pub fn instance_canister(state: &State, caller_is_controller: bool, id: u64) -> (res:
    MiddlewareResult<Vec<u8>>)
    ensures
        !caller_is_controller ==> res == Err::<Vec<u8>, MiddlewareError>(not_a_controller()),
        caller_is_controller ==> match lookup(state.middlewares@, id) {
            Ok(inst) => res matches Ok(c) && c@ == inst.1,
            Err(e) => res == Err::<Vec<u8>, MiddlewareError>(e),
        },
{
    authorize(caller_is_controller)?;
    let middleware_instance_example = state.get_middleware_instance(id)?;
    Ok(middleware_instance_example.canister_id)
}

/// The outcome of stopping an instance's canister: `FailedToStop` on refusal.
pub fn canister_stopped(stopped: Result<(), String>) -> (res: MiddlewareResult<()>)
    ensures
        match stopped {
            Ok(()) => res == Ok::<(), MiddlewareError>(()),
            Err(msg) => res matches Err(MiddlewareError::FailedToStop(m)) && m@ == msg@,
        },
{
    match stopped {
        Ok(()) => Ok(()),
        Err(msg) => Err(MiddlewareError::FailedToStop(msg)),
    }
}

/// The outcome of deleting an instance's canister: once deleted, the instance
/// is unregistered; otherwise `FailedToDelete` and nothing changes.
pub fn canister_deleted(state: &mut State, id: u64, deleted: Result<(), String>) -> (res:
    MiddlewareResult<()>)
    ensures
        match deleted {
            Ok(()) => {
                &&& res == Ok::<(), MiddlewareError>(())
                &&& final(state).middlewares@ == old(state).middlewares@.remove(id)
            },
            Err(msg) => {
                &&& res matches Err(MiddlewareError::FailedToDelete(m)) && m@ == msg@
                &&& final(state).middlewares@ == old(state).middlewares@
            },
        },
        well_keyed(old(state).middlewares@) ==> well_keyed(final(state).middlewares@),
        final(state).metadata == old(state).metadata,
        final(state).id_counter == old(state).id_counter,
{
    match deleted {
        Ok(()) => {
            state.middlewares.remove(id);
            Ok(())
        },
        Err(msg) => Err(MiddlewareError::FailedToDelete(msg)),
    }
}

/// Whether a list of instances is ordered by strictly increasing id.
pub open spec fn ids_increasing(res: Seq<GetMiddlewareInstanceResult>) -> bool {
    forall|i: int, j: int| 0 <= i < j < res.len() ==> res[i].id < res[j].id
}

/// Whether a list holds exactly the registered instances, each under its id.
pub open spec fn lists_exactly(res: Seq<GetMiddlewareInstanceResult>, m: Map<u64, MiddlewareInstanceView>) -> bool {
    &&& res.len() == m.dom().len()
    &&& forall|i: int| 0 <= i < res.len() ==> {
        &&& m.contains_key(#[trigger] res[i].id)
        &&& res[i].middleware_instance_example@ == m[res[i].id]
    }
    &&& forall|k: u64| m.contains_key(k) ==> exists|i: int| 0 <= i < res.len() && #[trigger] res[i].id == k
}

/// All registered instances, ordered by id.
pub fn get_middleware_instances(state: &State) -> (res: Vec<GetMiddlewareInstanceResult>)
    ensures
        ids_increasing(res@),
        lists_exactly(res@, state.middlewares@),
        forall|i: int, j: int| 0 <= i < j < res@.len() ==> res@[i].id < res@[j].id,
        forall|k: u64| state.middlewares@.contains_key(k) <==> exists|i: int| 0 <= i < res@.len() && #[trigger] res@[i].id == k,
{
    let entries = state.middlewares.entries();
    let ghost es = entries@;
    let mut res: Vec<GetMiddlewareInstanceResult> = Vec::new();
    for entry in it: entries
        invariant
            it.seq() == es,
            es.len() == state.middlewares@.dom().len(),
            forall|i: int, j: int| 0 <= i < j < es.len() ==> es[i].0 < es[j].0,
            forall|i: int|
                0 <= i < es.len() ==> state.middlewares@.contains_key(#[trigger] es[i].0)
                    && crate::types::entry_view(es[i].1) == state.middlewares@[es[i].0],
            res.len() == it.index(),
            forall|i: int| 0 <= i < res.len() ==> {
                &&& #[trigger] res@[i].id == es[i].0
                &&& res@[i].middleware_instance_example@ == crate::types::entry_view(es[i].1)
            },
    {
        let (key, (id, canister_id, user)) = entry;
        res.push(
            GetMiddlewareInstanceResult {
                id: key,
                middleware_instance_example: MiddlewareInstance { id, canister_id, user },
            },
        );
    }
    proof {
        assert forall|k: u64| state.middlewares@.contains_key(k) implies exists|i: int|
            0 <= i < res.len() && #[trigger] res@[i].id == k by {
            let i = choose|i: int| 0 <= i < es.len() && #[trigger] es[i].0 == k;
            assert(res@[i].id == k);
        }
    }
    res
}

} // verus!
