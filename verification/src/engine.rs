//! The lifecycle engine: create, rename, extend, expire, the clean sweep,
//! and the read-only listing queries, composed from the `Store` and
//! `VolumeBackend` ports under authorization and policy.
//!
//! The store and the backend are not jointly transactional.  `create`
//! commits metadata before provisioning the volume (the key must reserve
//! the name), so a backend failure can leave metadata ahead of the volume;
//! `clean` destroys a volume before deleting its record, so metadata never
//! under-counts a volume that still exists.  The contracts state both
//! orderings.

use vstd::prelude::*;

use crate::backend::VolumeBackend;
use crate::config::{Config, Filesystem};
use crate::errors::LifecycleError;
use crate::naming::{to_volume_string, volume_path};
use crate::policy::{authorize, authorized, check_duration, check_enabled, duration_allowed,
    enabled_for, Actor};
use crate::schedule::{earlier, later, state_spec, sweep_deletable, sweep_deletable_spec, WsState};
use crate::store::{Store, StoreError, WsKey};

verus! {

/// Creates a new workspace: inserts its record expiring `duration` days
/// after `now`, then provisions its volume, reads the mountpoint back and
/// restricts it to the owner.  Metadata commits before the volume exists,
/// so a backend failure leaves the record behind, to be reconciled later.
pub fn create<S: Store, B: VolumeBackend>(
    store: &mut S,
    backend: &mut B,
    filesystem: &Filesystem,
    user: &str,
    name: &str,
    duration: i64,
    actor: &Actor,
    now: i64,
) -> (r: Result<String, LifecycleError>)
    requires
        old(store).inv(),
        old(backend).inv(),
        i64::MIN <= now + duration * 86400 <= i64::MAX,
    ensures
        final(store).inv(),
        final(backend).inv(),
        ({
            let k = (filesystem.name@, user@, name@);
            let path = volume_path(filesystem.root@, user@, name@);
            let target = (now + duration * 86400) as i64;
            let checks = authorized(actor, user@) && enabled_for(filesystem, actor)
                && duration_allowed(filesystem, duration, actor);
            match r {
                Result::Ok(_) => checks && !old(store).model().contains_key(k) && final(store).model() == old(store).model().insert(k, target) && !old(backend).model().contains_key(path) && final(backend).model() == old(backend).model().insert(path, false),
                Result::Err(LifecycleError::InsufficientPrivileges) => !authorized(actor, user@)
                    && final(store).model() == old(store).model() && final(backend).model() == old(backend).model(),
                Result::Err(LifecycleError::FilesystemDisabled) => authorized(actor, user@)
                    && !enabled_for(filesystem, actor) && final(store).model() == old(store).model() && final(backend).model() == old(backend).model(),
                Result::Err(LifecycleError::TooHighDuration) => authorized(actor, user@)
                    && enabled_for(filesystem, actor) && !duration_allowed(
                    filesystem,
                    duration,
                    actor,
                ) && final(store).model() == old(store).model() && final(backend).model() == old(backend).model(),
                Result::Err(LifecycleError::WorkspaceExists) => checks && old(store).model().contains_key(k) && final(store).model() == old(store).model() && final(backend).model() == old(backend).model(),
                Result::Err(LifecycleError::Backend(_)) => checks && !old(store).model().contains_key(k) && final(store).model() == old(store).model().insert(
                    k,
                    target,
                ) && (final(backend).model() == old(backend).model() || final(backend).model()
                    == old(backend).model().insert(path, false)),
                Result::Err(_) => false,
            }
        }),
        ({
            let k = (filesystem.name@, user@, name@);
            let path = volume_path(filesystem.root@, user@, name@);
            authorized(actor, user@) && enabled_for(filesystem, actor) && duration_allowed(
                filesystem,
                duration,
                actor,
            ) && !old(store).model().contains_key(k) && !old(backend).model().contains_key(path)
                && old(backend).obeys_model() ==> r is Ok
        }),
{
    match authorize(actor, user) {
        Result::Err(e) => {
            return Result::Err(e);
        },
        Result::Ok(()) => {},
    }
    match check_enabled(filesystem, actor) {
        Result::Err(e) => {
            return Result::Err(e);
        },
        Result::Ok(()) => {},
    }
    match check_duration(filesystem, duration, actor) {
        Result::Err(e) => {
            return Result::Err(e);
        },
        Result::Ok(()) => {},
    }
    let target = crate::schedule::target_time(now, duration);
    match store.create_record(filesystem.name.as_str(), user, name, target) {
        Result::Err(_) => {
            return Result::Err(LifecycleError::WorkspaceExists);
        },
        Result::Ok(()) => {},
    }
    let path = to_volume_string(filesystem.root.as_str(), user, name);
    match backend.create(path.as_str()) {
        Result::Err(e) => {
            return Result::Err(LifecycleError::Backend(e));
        },
        Result::Ok(()) => {},
    }
    let mountpoint = match backend.mountpoint(path.as_str()) {
        Result::Err(e) => {
            return Result::Err(LifecycleError::Backend(e));
        },
        Result::Ok(m) => m,
    };
    match backend.restrict_mount(mountpoint.as_str(), user) {
        Result::Err(e) => {
            return Result::Err(LifecycleError::Backend(e));
        },
        Result::Ok(()) => {},
    }
    Result::Ok(mountpoint)
}

/// Renames an existing workspace: updates the record's name, then renames
/// the volume.  A backend failure leaves the record renamed ahead of the
/// volume.
pub fn rename<S: Store, B: VolumeBackend>(
    store: &mut S,
    backend: &mut B,
    filesystem: &Filesystem,
    user: &str,
    src_name: &str,
    dest_name: &str,
    actor: &Actor,
) -> (r: Result<(), LifecycleError>)
    requires
        old(store).inv(),
        old(backend).inv(),
    ensures
        final(store).inv(),
        final(backend).inv(),
        ({
            let srck = (filesystem.name@, user@, src_name@);
            let destk = (filesystem.name@, user@, dest_name@);
            let srcp = volume_path(filesystem.root@, user@, src_name@);
            let destp = volume_path(filesystem.root@, user@, dest_name@);
            let moved = old(store).model().remove(srck).insert(
                destk,
                old(store).model()[srck],
            );
            let checks = authorized(actor, user@) && enabled_for(filesystem, actor);
            match r {
                Result::Ok(()) => checks && old(store).model().contains_key(srck) && (src_name@
                    == dest_name@ || !old(store).model().contains_key(destk)) && final(store).model() == moved && old(backend).model().contains_key(srcp) && !old(backend).model().contains_key(destp) && final(backend).model() == old(backend).model().remove(srcp).insert(destp, old(backend).model()[srcp]),
                Result::Err(LifecycleError::InsufficientPrivileges) => !authorized(actor, user@)
                    && final(store).model() == old(store).model() && final(backend).model() == old(backend).model(),
                Result::Err(LifecycleError::FilesystemDisabled) => authorized(actor, user@)
                    && !enabled_for(filesystem, actor) && final(store).model() == old(store).model() && final(backend).model() == old(backend).model(),
                Result::Err(LifecycleError::UnknownWorkspace) => checks && !old(store).model().contains_key(srck) && final(store).model() == old(store).model()
                    && final(backend).model() == old(backend).model(),
                Result::Err(LifecycleError::WorkspaceExists) => checks && old(store).model().contains_key(srck) && src_name@ != dest_name@ && old(store).model().contains_key(destk) && final(store).model() == old(store).model()
                    && final(backend).model() == old(backend).model(),
                Result::Err(LifecycleError::Backend(_)) => checks && old(store).model().contains_key(srck) && (src_name@ == dest_name@ || !old(store).model().contains_key(destk)) && final(store).model() == moved && final(backend).model() == old(backend).model(),
                Result::Err(_) => false,
            }
        }),
        ({
            let srck = (filesystem.name@, user@, src_name@);
            let destk = (filesystem.name@, user@, dest_name@);
            let srcp = volume_path(filesystem.root@, user@, src_name@);
            let destp = volume_path(filesystem.root@, user@, dest_name@);
            authorized(actor, user@) && enabled_for(filesystem, actor) && old(store).model().contains_key(srck) && src_name@ != dest_name@ && !old(store).model().contains_key(destk) && old(backend).model().contains_key(srcp) && !old(backend).model().contains_key(destp) && old(backend).obeys_model() ==> r is Ok
        }),
{
    match authorize(actor, user) {
        Result::Err(e) => {
            return Result::Err(e);
        },
        Result::Ok(()) => {},
    }
    match check_enabled(filesystem, actor) {
        Result::Err(e) => {
            return Result::Err(e);
        },
        Result::Ok(()) => {},
    }
    match store.rename_record(filesystem.name.as_str(), user, src_name, dest_name) {
        Result::Err(StoreError::NotFound) => {
            return Result::Err(LifecycleError::UnknownWorkspace);
        },
        Result::Err(StoreError::Conflict) => {
            return Result::Err(LifecycleError::WorkspaceExists);
        },
        Result::Ok(()) => {},
    }
    let src_volume = to_volume_string(filesystem.root.as_str(), user, src_name);
    let dest_volume = to_volume_string(filesystem.root.as_str(), user, dest_name);
    match backend.rename(src_volume.as_str(), dest_volume.as_str()) {
        Result::Err(e) => Result::Err(LifecycleError::Backend(e)),
        Result::Ok(()) => Result::Ok(()),
    }
}

/// Postpones a workspace's expiry to `duration` days after `now` — never
/// backward — and restores writability, reversing any prior grace
/// read-only state.
pub fn extend<S: Store, B: VolumeBackend>(
    store: &mut S,
    backend: &mut B,
    filesystem: &Filesystem,
    user: &str,
    name: &str,
    duration: i64,
    actor: &Actor,
    now: i64,
) -> (r: Result<(), LifecycleError>)
    requires
        old(store).inv(),
        old(backend).inv(),
        i64::MIN <= now + duration * 86400 <= i64::MAX,
    ensures
        final(store).inv(),
        final(backend).inv(),
        ({
            let k = (filesystem.name@, user@, name@);
            let path = volume_path(filesystem.root@, user@, name@);
            let target = (now + duration * 86400) as i64;
            let bumped = old(store).model().insert(
                k,
                later(old(store).model()[k], target),
            );
            let checks = authorized(actor, user@) && enabled_for(filesystem, actor)
                && duration_allowed(filesystem, duration, actor);
            match r {
                Result::Ok(()) => checks && old(store).model().contains_key(k) && final(store).model() == bumped && old(backend).model().contains_key(path) && final(backend).model() == old(backend).model().insert(path, false),
                Result::Err(LifecycleError::InsufficientPrivileges) => !authorized(actor, user@)
                    && final(store).model() == old(store).model() && final(backend).model() == old(backend).model(),
                Result::Err(LifecycleError::FilesystemDisabled) => authorized(actor, user@)
                    && !enabled_for(filesystem, actor) && final(store).model() == old(store).model() && final(backend).model() == old(backend).model(),
                Result::Err(LifecycleError::TooHighDuration) => authorized(actor, user@)
                    && enabled_for(filesystem, actor) && !duration_allowed(
                    filesystem,
                    duration,
                    actor,
                ) && final(store).model() == old(store).model() && final(backend).model() == old(backend).model(),
                Result::Err(LifecycleError::UnknownWorkspace) => checks && !old(store).model().contains_key(k) && final(store).model() == old(store).model() && final(backend).model() == old(backend).model(),
                Result::Err(LifecycleError::Backend(_)) => checks && old(store).model().contains_key(k) && final(store).model() == bumped && final(backend).model() == old(backend).model(),
                Result::Err(_) => false,
            }
        }),
        ({
            let k = (filesystem.name@, user@, name@);
            let path = volume_path(filesystem.root@, user@, name@);
            authorized(actor, user@) && enabled_for(filesystem, actor) && duration_allowed(
                filesystem,
                duration,
                actor,
            ) && old(store).model().contains_key(k) && old(backend).model().contains_key(path)
                && old(backend).obeys_model() ==> r is Ok
        }),
{
    match authorize(actor, user) {
        Result::Err(e) => {
            return Result::Err(e);
        },
        Result::Ok(()) => {},
    }
    match check_enabled(filesystem, actor) {
        Result::Err(e) => {
            return Result::Err(e);
        },
        Result::Ok(()) => {},
    }
    match check_duration(filesystem, duration, actor) {
        Result::Err(e) => {
            return Result::Err(e);
        },
        Result::Ok(()) => {},
    }
    let target = crate::schedule::target_time(now, duration);
    match store.extend_record(filesystem.name.as_str(), user, name, target) {
        Result::Err(_) => {
            return Result::Err(LifecycleError::UnknownWorkspace);
        },
        Result::Ok(()) => {},
    }
    let path = to_volume_string(filesystem.root.as_str(), user, name);
    match backend.set_readonly(path.as_str(), false) {
        Result::Err(e) => Result::Err(LifecycleError::Backend(e)),
        Result::Ok(()) => Result::Ok(()),
    }
}

/// Expires a workspace: moves its expiry back to `now` — or behind the
/// whole retention window when `delete_on_next_clean` is set, so the next
/// sweep deletes it outright — and makes the volume read-only.  Only
/// ownership is checked; no policy applies to expiry.
pub fn expire<S: Store, B: VolumeBackend>(
    store: &mut S,
    backend: &mut B,
    filesystem: &Filesystem,
    user: &str,
    name: &str,
    actor: &Actor,
    delete_on_next_clean: bool,
    now: i64,
) -> (r: Result<(), LifecycleError>)
    requires
        old(store).inv(),
        old(backend).inv(),
        filesystem.wf(),
        delete_on_next_clean ==> i64::MIN <= now - filesystem.expired_retention * 86400,
    ensures
        final(store).inv(),
        final(backend).inv(),
        ({
            let k = (filesystem.name@, user@, name@);
            let path = volume_path(filesystem.root@, user@, name@);
            let target: i64 = if delete_on_next_clean {
                (now - filesystem.expired_retention * 86400) as i64
            } else {
                now
            };
            let lowered = old(store).model().insert(
                k,
                earlier(old(store).model()[k], target),
            );
            match r {
                Result::Ok(()) => authorized(actor, user@) && old(store).model().contains_key(k)
                    && final(store).model() == lowered && old(backend).model().contains_key(path)
                    && final(backend).model() == old(backend).model().insert(path, true),
                Result::Err(LifecycleError::InsufficientPrivileges) => !authorized(actor, user@)
                    && final(store).model() == old(store).model() && final(backend).model() == old(backend).model(),
                Result::Err(LifecycleError::UnknownWorkspace) => authorized(actor, user@) && !old(store).model().contains_key(k) && final(store).model() == old(store).model() && final(backend).model() == old(backend).model(),
                Result::Err(LifecycleError::Backend(_)) => authorized(actor, user@) && old(store).model().contains_key(k) && final(store).model() == lowered && final(backend).model() == old(backend).model(),
                Result::Err(_) => false,
            }
        }),
        ({
            let k = (filesystem.name@, user@, name@);
            let path = volume_path(filesystem.root@, user@, name@);
            authorized(actor, user@) && old(store).model().contains_key(k) && old(backend).model().contains_key(path) && old(backend).obeys_model() ==> r is Ok
        }),
{
    match authorize(actor, user) {
        Result::Err(e) => {
            return Result::Err(e);
        },
        Result::Ok(()) => {},
    }
    let target: i64 = if delete_on_next_clean {
        ((now as i128) - (filesystem.expired_retention as i128) * 86400) as i64
    } else {
        now
    };
    match store.expire_record(filesystem.name.as_str(), user, name, target) {
        Result::Err(_) => {
            return Result::Err(LifecycleError::UnknownWorkspace);
        },
        Result::Ok(()) => {},
    }
    let path = to_volume_string(filesystem.root.as_str(), user, name);
    match backend.set_readonly(path.as_str(), true) {
        Result::Err(e) => Result::Err(LifecycleError::Backend(e)),
        Result::Ok(()) => Result::Ok(()),
    }
}

/// Whether a sweep at `now` may remove the record with key `k` and
/// expiration `exp`: its filesystem is configured, it has expired, and
/// its retention window has elapsed.
pub open spec fn sweep_removable(config: &Config, k: WsKey, exp: i64, now: i64) -> bool {
    config.has_filesystem(k.0) && sweep_deletable_spec(
        exp,
        config.filesystem_named(k.0).expired_retention,
        now,
    )
}

/// The volume path of the record with key `k`, under its filesystem's
/// root.
pub open spec fn record_path(config: &Config, k: WsKey) -> Seq<char> {
    volume_path(config.filesystem_named(k.0).root@, k.1, k.2)
}

/// No record other than the one with key `k` derives the same volume
/// path; anything that happens to that path is then on `k`'s account.
pub open spec fn sole_path(config: &Config, m: Map<WsKey, i64>, k: WsKey) -> bool {
    forall|k2: WsKey|
        k2 != k && #[trigger] m.contains_key(k2) ==> record_path(config, k2) != record_path(
            config,
            k,
        )
}

/// The clean sweep: expired records still in their grace window get their
/// volumes set read-only; records past retention get their volume
/// destroyed and, only if the destroy succeeded, their record deleted —
/// never the record first.  A failure on one candidate leaves it for a
/// later sweep and the pass continues.
///
/// Besides the safety clauses (nothing but deletable records leave, and
/// only with their volume gone; flags only ever turn read-only, and only
/// on expired records' volumes), the contract ties progress to the
/// backend: a deletable record whose volume — shared with no other record
/// — was present and is gone afterwards has been deleted; and against a
/// backend that obeys its model, one sweep deletes every such record and
/// turns every retained expired record's volume read-only.
#[verifier::rlimit(100)]
pub fn clean<S: Store, B: VolumeBackend>(
    store: &mut S,
    backend: &mut B,
    config: &Config,
    now: i64,
)
    requires
        old(store).inv(),
        old(backend).inv(),
        config.wf(),
    ensures
        final(store).inv(),
        final(backend).inv(),
        final(backend).obeys_model() == old(backend).obeys_model(),
        forall|k: WsKey|
            #[trigger] final(store).model().contains_key(k) ==> old(store).model().contains_key(k)
                && final(store).model()[k] == old(store).model()[k],
        forall|k: WsKey|
            #[trigger] old(store).model().contains_key(k) && !sweep_removable(
                config,
                k,
                old(store).model()[k],
                now,
            ) ==> final(store).model().contains_key(k),
        forall|k: WsKey|
            #[trigger] old(store).model().contains_key(k) && !final(store).model().contains_key(k)
                ==> sweep_removable(config, k, old(store).model()[k], now) && !final(backend).model().contains_key(record_path(config, k)),
        forall|p: Seq<char>|
            #[trigger] final(backend).model().contains_key(p) ==> old(backend).model().contains_key(p) && (final(backend).model()[p] == old(backend).model()[p]
                || final(backend).model()[p] == true),
        forall|p: Seq<char>|
            old(backend).model().contains_key(p) && !(#[trigger] final(backend).model().contains_key(p)) ==> exists|k: WsKey|
                old(store).model().contains_key(k) && sweep_removable(
                    config,
                    k,
                    old(store).model()[k],
                    now,
                ) && record_path(config, k) == p,
        forall|k: WsKey|
            #[trigger] old(store).model().contains_key(k) && sweep_removable(
                config,
                k,
                old(store).model()[k],
                now,
            ) && old(backend).model().contains_key(record_path(config, k)) && !final(backend).model().contains_key(record_path(config, k)) && sole_path(
                config,
                old(store).model(),
                k,
            ) ==> !final(store).model().contains_key(k),
        forall|p: Seq<char>|
            #[trigger] final(backend).model().contains_key(p) && final(backend).model()[p] != old(backend).model()[p] ==> exists|k: WsKey|
                old(store).model().contains_key(k) && old(store).model()[k] < now && record_path(
                    config,
                    k,
                ) == p,
        old(backend).obeys_model() ==> forall|k: WsKey|
            #[trigger] old(store).model().contains_key(k) && sweep_removable(
                config,
                k,
                old(store).model()[k],
                now,
            ) && old(backend).model().contains_key(record_path(config, k)) && sole_path(
                config,
                old(store).model(),
                k,
            ) ==> !final(store).model().contains_key(k) && !final(backend).model().contains_key(
                record_path(config, k),
            ),
        old(backend).obeys_model() ==> forall|k: WsKey|
            #[trigger] old(store).model().contains_key(k) && old(store).model()[k] < now
                && config.has_filesystem(k.0) && !sweep_removable(
                config,
                k,
                old(store).model()[k],
                now,
            ) && old(backend).model().contains_key(record_path(config, k)) && sole_path(
                config,
                old(store).model(),
                k,
            ) ==> final(backend).model().contains_key(record_path(config, k)) && final(backend).model()[record_path(config, k)] == true,
{
    let ghost m0 = store.model();
    let ghost b0 = backend.model();
    let ghost binf = backend.obeys_model();
    let candidates = store.sweep_candidates(now);
    let mut idx: usize = 0;
    while idx < candidates.len()
        invariant
            store.inv(),
            backend.inv(),
            backend.obeys_model() == binf,
            config.wf(),
            idx <= candidates@.len(),
            forall|a: int|
                0 <= a < candidates@.len() ==> m0.contains_key(#[trigger] candidates@[a].key())
                    && m0[candidates@[a].key()] == candidates@[a].expiration_time && candidates@[
                a].expiration_time < now,
            forall|a: int, b: int|
                0 <= a < b < candidates@.len() ==> (#[trigger] candidates@[a]).key() != (
                #[trigger] candidates@[b]).key(),
            forall|k: WsKey|
                #[trigger] store.model().contains_key(k) ==> m0.contains_key(k)
                    && store.model()[k] == m0[k],
            forall|k: WsKey|
                #[trigger] m0.contains_key(k) && !sweep_removable(config, k, m0[k], now)
                    ==> store.model().contains_key(k),
            forall|k: WsKey|
                #[trigger] m0.contains_key(k) && !store.model().contains_key(k)
                    ==> sweep_removable(config, k, m0[k], now) && !backend.model().contains_key(
                    record_path(config, k),
                ),
            forall|p: Seq<char>|
                #[trigger] backend.model().contains_key(p) ==> b0.contains_key(p) && (
                backend.model()[p] == b0[p] || backend.model()[p] == true),
            forall|p: Seq<char>|
                b0.contains_key(p) && !(#[trigger] backend.model().contains_key(p)) ==> exists|
                    k: WsKey,
                |
                    m0.contains_key(k) && sweep_removable(config, k, m0[k], now) && record_path(
                        config,
                        k,
                    ) == p,
            forall|k: WsKey|
                #[trigger] m0.contains_key(k) && sweep_removable(config, k, m0[k], now)
                    && b0.contains_key(record_path(config, k)) && !backend.model().contains_key(
                    record_path(config, k),
                ) && sole_path(config, m0, k) ==> !store.model().contains_key(k),
            forall|p: Seq<char>|
                #[trigger] backend.model().contains_key(p) && backend.model()[p] != b0[p]
                    ==> exists|k: WsKey|
                    m0.contains_key(k) && m0[k] < now && record_path(config, k) == p,
            forall|a: int|
                idx <= a < candidates@.len() && sole_path(
                    config,
                    m0,
                    (#[trigger] candidates@[a]).key(),
                ) && b0.contains_key(record_path(config, candidates@[a].key()))
                    ==> backend.model().contains_key(record_path(config, candidates@[a].key())),
            binf ==> forall|a: int|
                0 <= a < idx && sweep_removable(
                    config,
                    (#[trigger] candidates@[a]).key(),
                    m0[candidates@[a].key()],
                    now,
                ) && b0.contains_key(record_path(config, candidates@[a].key())) && sole_path(
                    config,
                    m0,
                    candidates@[a].key(),
                ) ==> !store.model().contains_key(candidates@[a].key())
                    && !backend.model().contains_key(record_path(config, candidates@[a].key())),
            binf ==> forall|a: int|
                0 <= a < idx && config.has_filesystem((#[trigger] candidates@[a]).key().0)
                    && !sweep_removable(
                    config,
                    candidates@[a].key(),
                    m0[candidates@[a].key()],
                    now,
                ) && b0.contains_key(record_path(config, candidates@[a].key())) && sole_path(
                    config,
                    m0,
                    candidates@[a].key(),
                ) ==> backend.model().contains_key(record_path(config, candidates@[a].key()))
                    && backend.model()[record_path(config, candidates@[a].key())] == true,
        decreases candidates@.len() - idx,
    {
        let ghost pre_m = store.model();
        let ghost pre_b = backend.model();
        let cand = &candidates[idx];
        match config.find_filesystem(cand.filesystem.as_str()) {
            Option::None => {
                proof {
                    assert(!config.has_filesystem(candidates@[idx as int].key().0));
                }
            },
            Option::Some(fs) => {
                let path = to_volume_string(
                    fs.root.as_str(),
                    cand.user.as_str(),
                    cand.name.as_str(),
                );
                proof {
                    assert(candidates@[idx as int].key().0 == cand.filesystem@);
                    assert(record_path(config, cand.key()) == path@);
                }
                if sweep_deletable(cand.expiration_time, fs.expired_retention, now) {
                    proof {
                        assert(sweep_removable(
                            config,
                            candidates@[idx as int].key(),
                            m0[candidates@[idx as int].key()],
                            now,
                        ));
                    }
                    match backend.destroy(path.as_str()) {
                        Result::Ok(()) => {
                            store.delete_record(
                                cand.filesystem.as_str(),
                                cand.user.as_str(),
                                cand.name.as_str(),
                            );
                            proof {
                                lemma_clean_destroy_step(
                                    config,
                                    m0,
                                    b0,
                                    pre_m,
                                    pre_b,
                                    store.model(),
                                    backend.model(),
                                    candidates@,
                                    idx as int,
                                    now,
                                    binf,
                                );
                            }
                        },
                        Result::Err(_) => {
                            proof {
                                if binf && b0.contains_key(path@) && sole_path(
                                    config,
                                    m0,
                                    candidates@[idx as int].key(),
                                ) {
                                    assert(pre_b.contains_key(path@));
                                    assert(false);
                                }
                            }
                        },
                    }
                } else {
                    match backend.set_readonly(path.as_str(), true) {
                        Result::Ok(()) => {
                            proof {
                                lemma_clean_grace_step(
                                    config,
                                    m0,
                                    b0,
                                    pre_b,
                                    backend.model(),
                                    candidates@,
                                    idx as int,
                                    now,
                                    binf,
                                );
                            }
                        },
                        Result::Err(_) => {
                            proof {
                                if binf && b0.contains_key(path@) && sole_path(
                                    config,
                                    m0,
                                    candidates@[idx as int].key(),
                                ) {
                                    assert(pre_b.contains_key(path@));
                                    assert(false);
                                }
                            }
                        },
                    }
                }
            },
        }
        idx = idx + 1;
    }
    proof {
        if binf {
            assert forall|k: WsKey|
                #[trigger] m0.contains_key(k) && sweep_removable(config, k, m0[k], now)
                    && b0.contains_key(record_path(config, k)) && sole_path(
                    config,
                    m0,
                    k,
                ) implies !store.model().contains_key(k) && !backend.model().contains_key(
                record_path(config, k),
            ) by {
                assert(m0[k] < now);
                let a = choose|a: int|
                    0 <= a < candidates@.len() && (#[trigger] candidates@[a].key()) == k;
                assert(sweep_removable(config, candidates@[a].key(), m0[candidates@[a].key()], now));
            }
            assert forall|k: WsKey|
                #[trigger] m0.contains_key(k) && m0[k] < now && config.has_filesystem(k.0)
                    && !sweep_removable(config, k, m0[k], now) && b0.contains_key(
                    record_path(config, k),
                ) && sole_path(config, m0, k) implies backend.model().contains_key(
                record_path(config, k),
            ) && backend.model()[record_path(config, k)] == true by {
                let a = choose|a: int|
                    0 <= a < candidates@.len() && (#[trigger] candidates@[a].key()) == k;
                assert(config.has_filesystem(candidates@[a].key().0));
            }
        }
    }
}

/// After a successful destroy-then-delete of the candidate at `idx`, the
/// sweep invariants carry over to the shrunken models.
proof fn lemma_clean_destroy_step(
    config: &Config,
    m0: Map<WsKey, i64>,
    b0: Map<Seq<char>, bool>,
    pre_m: Map<WsKey, i64>,
    pre_b: Map<Seq<char>, bool>,
    post_m: Map<WsKey, i64>,
    post_b: Map<Seq<char>, bool>,
    cands: Seq<crate::store::WorkspaceRecord>,
    idx: int,
    now: i64,
    binf: bool,
)
    requires
        0 <= idx < cands.len(),
        forall|a: int|
            0 <= a < cands.len() ==> m0.contains_key(#[trigger] cands[a].key())
                && m0[cands[a].key()] == cands[a].expiration_time && cands[a].expiration_time
                < now,
        forall|a: int, b: int|
            0 <= a < b < cands.len() ==> (#[trigger] cands[a]).key() != (#[trigger] cands[b]).key(),
        sweep_removable(config, cands[idx].key(), m0[cands[idx].key()], now),
        pre_b.contains_key(record_path(config, cands[idx].key())),
        post_b == pre_b.remove(record_path(config, cands[idx].key())),
        post_m == pre_m.remove(cands[idx].key()),
        forall|k: WsKey|
            #[trigger] m0.contains_key(k) && sweep_removable(config, k, m0[k], now)
                && b0.contains_key(record_path(config, k)) && !pre_b.contains_key(
                record_path(config, k),
            ) && sole_path(config, m0, k) ==> !pre_m.contains_key(k),
        forall|a: int|
            idx <= a < cands.len() && sole_path(config, m0, (#[trigger] cands[a]).key())
                && b0.contains_key(record_path(config, cands[a].key())) ==> pre_b.contains_key(
                record_path(config, cands[a].key()),
            ),
        binf ==> forall|a: int|
            0 <= a < idx && sweep_removable(
                config,
                (#[trigger] cands[a]).key(),
                m0[cands[a].key()],
                now,
            ) && b0.contains_key(record_path(config, cands[a].key())) && sole_path(
                config,
                m0,
                cands[a].key(),
            ) ==> !pre_m.contains_key(cands[a].key()) && !pre_b.contains_key(
                record_path(config, cands[a].key()),
            ),
        binf ==> forall|a: int|
            0 <= a < idx && config.has_filesystem((#[trigger] cands[a]).key().0)
                && !sweep_removable(config, cands[a].key(), m0[cands[a].key()], now)
                && b0.contains_key(record_path(config, cands[a].key())) && sole_path(
                config,
                m0,
                cands[a].key(),
            ) ==> pre_b.contains_key(record_path(config, cands[a].key())) && pre_b[record_path(
                config,
                cands[a].key(),
            )] == true,
    ensures
        forall|k: WsKey|
            #[trigger] m0.contains_key(k) && sweep_removable(config, k, m0[k], now)
                && b0.contains_key(record_path(config, k)) && !post_b.contains_key(
                record_path(config, k),
            ) && sole_path(config, m0, k) ==> !post_m.contains_key(k),
        forall|a: int|
            idx + 1 <= a < cands.len() && sole_path(config, m0, (#[trigger] cands[a]).key())
                && b0.contains_key(record_path(config, cands[a].key())) ==> post_b.contains_key(
                record_path(config, cands[a].key()),
            ),
        binf ==> forall|a: int|
            0 <= a < idx + 1 && sweep_removable(
                config,
                (#[trigger] cands[a]).key(),
                m0[cands[a].key()],
                now,
            ) && b0.contains_key(record_path(config, cands[a].key())) && sole_path(
                config,
                m0,
                cands[a].key(),
            ) ==> !post_m.contains_key(cands[a].key()) && !post_b.contains_key(
                record_path(config, cands[a].key()),
            ),
        binf ==> forall|a: int|
            0 <= a < idx + 1 && config.has_filesystem((#[trigger] cands[a]).key().0)
                && !sweep_removable(config, cands[a].key(), m0[cands[a].key()], now)
                && b0.contains_key(record_path(config, cands[a].key())) && sole_path(
                config,
                m0,
                cands[a].key(),
            ) ==> post_b.contains_key(record_path(config, cands[a].key())) && post_b[record_path(
                config,
                cands[a].key(),
            )] == true,
{
    let kc = cands[idx].key();
    let pc = record_path(config, kc);
    assert forall|k: WsKey|
        #[trigger] m0.contains_key(k) && sweep_removable(config, k, m0[k], now)
            && b0.contains_key(record_path(config, k)) && !post_b.contains_key(
            record_path(config, k),
        ) && sole_path(config, m0, k) implies !post_m.contains_key(k) by {
        if pre_b.contains_key(record_path(config, k)) {
            assert(record_path(config, k) == pc);
            if k != kc {
                assert(m0.contains_key(kc));
                assert(record_path(config, kc) != record_path(config, k));
                assert(false);
            }
        }
    }
    assert forall|a: int|
        idx + 1 <= a < cands.len() && sole_path(config, m0, (#[trigger] cands[a]).key())
            && b0.contains_key(record_path(config, cands[a].key())) implies post_b.contains_key(
        record_path(config, cands[a].key()),
    ) by {
        assert(cands[a].key() != kc);
        assert(m0.contains_key(kc));
        assert(record_path(config, kc) != record_path(config, cands[a].key()));
    }
    if binf {
        assert forall|a: int|
            0 <= a < idx + 1 && sweep_removable(
                config,
                (#[trigger] cands[a]).key(),
                m0[cands[a].key()],
                now,
            ) && b0.contains_key(record_path(config, cands[a].key())) && sole_path(
                config,
                m0,
                cands[a].key(),
            ) implies !post_m.contains_key(cands[a].key()) && !post_b.contains_key(
            record_path(config, cands[a].key()),
        ) by {
            if a == idx {
                assert(post_b == pre_b.remove(pc));
            } else {
                assert(!pre_m.contains_key(cands[a].key()));
                assert(!pre_b.contains_key(record_path(config, cands[a].key())));
            }
        }
        assert forall|a: int|
            0 <= a < idx + 1 && config.has_filesystem((#[trigger] cands[a]).key().0)
                && !sweep_removable(config, cands[a].key(), m0[cands[a].key()], now)
                && b0.contains_key(record_path(config, cands[a].key())) && sole_path(
                config,
                m0,
                cands[a].key(),
            ) implies post_b.contains_key(record_path(config, cands[a].key())) && post_b[
        record_path(config, cands[a].key())] == true by {
            if a == idx {
                assert(false);
            } else {
                assert(cands[a].key() != kc);
                assert(m0.contains_key(kc));
                assert(record_path(config, kc) != record_path(config, cands[a].key()));
            }
        }
    }
}

/// After a successful read-only toggle on the grace candidate at `idx`,
/// the sweep invariants carry over.
proof fn lemma_clean_grace_step(
    config: &Config,
    m0: Map<WsKey, i64>,
    b0: Map<Seq<char>, bool>,
    pre_b: Map<Seq<char>, bool>,
    post_b: Map<Seq<char>, bool>,
    cands: Seq<crate::store::WorkspaceRecord>,
    idx: int,
    now: i64,
    binf: bool,
)
    requires
        0 <= idx < cands.len(),
        forall|a: int|
            0 <= a < cands.len() ==> m0.contains_key(#[trigger] cands[a].key())
                && m0[cands[a].key()] == cands[a].expiration_time && cands[a].expiration_time
                < now,
        forall|a: int, b: int|
            0 <= a < b < cands.len() ==> (#[trigger] cands[a]).key() != (#[trigger] cands[b]).key(),
        pre_b.contains_key(record_path(config, cands[idx].key())),
        post_b == pre_b.insert(record_path(config, cands[idx].key()), true),
        forall|p: Seq<char>|
            #[trigger] pre_b.contains_key(p) && pre_b[p] != b0[p] ==> exists|k: WsKey|
                m0.contains_key(k) && m0[k] < now && record_path(config, k) == p,
        binf ==> forall|a: int|
            0 <= a < idx && config.has_filesystem((#[trigger] cands[a]).key().0)
                && !sweep_removable(config, cands[a].key(), m0[cands[a].key()], now)
                && b0.contains_key(record_path(config, cands[a].key())) && sole_path(
                config,
                m0,
                cands[a].key(),
            ) ==> pre_b.contains_key(record_path(config, cands[a].key())) && pre_b[record_path(
                config,
                cands[a].key(),
            )] == true,
    ensures
        forall|p: Seq<char>|
            #[trigger] post_b.contains_key(p) && post_b[p] != b0[p] ==> exists|k: WsKey|
                m0.contains_key(k) && m0[k] < now && record_path(config, k) == p,
        binf ==> forall|a: int|
            0 <= a < idx + 1 && config.has_filesystem((#[trigger] cands[a]).key().0)
                && !sweep_removable(config, cands[a].key(), m0[cands[a].key()], now)
                && b0.contains_key(record_path(config, cands[a].key())) && sole_path(
                config,
                m0,
                cands[a].key(),
            ) ==> post_b.contains_key(record_path(config, cands[a].key())) && post_b[record_path(
                config,
                cands[a].key(),
            )] == true,
{
    let kc = cands[idx].key();
    let pc = record_path(config, kc);
    assert forall|p: Seq<char>|
        #[trigger] post_b.contains_key(p) && post_b[p] != b0[p] implies exists|k: WsKey|
        m0.contains_key(k) && m0[k] < now && record_path(config, k) == p by {
        if p == pc {
            assert(m0.contains_key(kc) && m0[kc] < now && record_path(config, kc) == p);
        } else {
            assert(pre_b.contains_key(p) && pre_b[p] == post_b[p]);
        }
    }
    if binf {
        assert forall|a: int|
            0 <= a < idx + 1 && config.has_filesystem((#[trigger] cands[a]).key().0)
                && !sweep_removable(config, cands[a].key(), m0[cands[a].key()], now)
                && b0.contains_key(record_path(config, cands[a].key())) && sole_path(
                config,
                m0,
                cands[a].key(),
            ) implies post_b.contains_key(record_path(config, cands[a].key())) && post_b[
        record_path(config, cands[a].key())] == true by {
            if a == idx {
                assert(post_b[pc] == true);
            } else {
                if record_path(config, cands[a].key()) == pc {
                    assert(cands[a].key() != kc);
                    assert(m0.contains_key(kc));
                    assert(record_path(config, kc) != record_path(config, cands[a].key()));
                    assert(false);
                }
            }
        }
    }
}

/// One row of the workspace listing: the record, its volume path, and
/// its derived state with the days left on its countdown.
pub struct ListEntry {
    /// The filesystem the workspace lives on.
    pub filesystem: String,
    /// The owner of the workspace.
    pub user: String,
    /// The workspace's name.
    pub name: String,
    /// When the workspace expires, in seconds.
    pub expiration_time: i64,
    /// The workspace's volume path.
    pub volume: String,
    /// The derived lifecycle state, as of the listing's `now`.
    pub state: WsState,
    /// Days until expiry (active) or deletion (grace); none once
    /// deletable.
    pub days: i64,
}

impl ListEntry {
    /// The listed record's key.
    pub open spec fn key(&self) -> WsKey {
        (self.filesystem@, self.user@, self.name@)
    }
}

/// Everything the listing promises of one of its rows: it reflects a
/// stored record passing the filters, on a configured filesystem, with
/// that filesystem's volume path, derived state and countdown.
pub open spec fn listed_entry<S: Store>(
    store: &S,
    config: &Config,
    filter_users: Option<Seq<Seq<char>>>,
    filter_filesystems: Option<Seq<Seq<char>>>,
    now: i64,
    e: ListEntry,
) -> bool {
    &&& store.model().contains_key(e.key())
    &&& store.model()[e.key()] == e.expiration_time
    &&& crate::store::record_selected(e.key(), filter_users, filter_filesystems)
    &&& config.has_filesystem(e.filesystem@)
    &&& e.volume@ == record_path(config, e.key())
    &&& e.state == state_spec(
        e.expiration_time,
        config.filesystem_named(e.filesystem@).expired_retention,
        now,
    )
    &&& e.days == crate::schedule::report_days(
        e.expiration_time,
        config.filesystem_named(e.filesystem@).expired_retention,
        now,
    )
}

/// Lists every record passing the owner and filesystem filters whose
/// filesystem is configured, with its volume path, derived state and
/// countdown, each exactly once, in no particular order.
#[verifier::rlimit(100)]
#[verifier::loop_isolation(false)]
pub fn list<S: Store>(
    store: &S,
    config: &Config,
    filter_users: &Option<Vec<String>>,
    filter_filesystems: &Option<Vec<String>>,
    now: i64,
) -> (r: Vec<ListEntry>)
    requires
        store.inv(),
        config.wf(),
    ensures
        forall|a: int|
            0 <= a < r.len() ==> listed_entry(
                store,
                config,
                crate::store::filter_view(filter_users),
                crate::store::filter_view(filter_filesystems),
                now,
                #[trigger] r[a],
            ),
        forall|a: int, b: int|
            0 <= a < b < r.len() ==> (#[trigger] r[a]).key() != (#[trigger] r[b]).key(),
        forall|k: WsKey|
            #[trigger] store.model().contains_key(k) && crate::store::record_selected(
                k,
                crate::store::filter_view(filter_users),
                crate::store::filter_view(filter_filesystems),
            ) && config.has_filesystem(k.0) ==> exists|a: int|
                0 <= a < r.len() && (#[trigger] r[a].key()) == k,
{
    let ghost fu = crate::store::filter_view(filter_users);
    let ghost ff = crate::store::filter_view(filter_filesystems);
    let records = store.list_records(filter_users, filter_filesystems);
    let mut out: Vec<ListEntry> = Vec::new();
    let mut i: usize = 0;
    while i < records.len()
        invariant
            i <= records@.len(),
            forall|a: int|
                0 <= a < out.len() ==> listed_entry(store, config, fu, ff, now, #[trigger] out[a]),
            forall|a: int, b: int|
                0 <= a < b < out.len() ==> (#[trigger] out[a]).key() != (#[trigger] out[b]).key(),
            forall|a: int|
                0 <= a < out.len() ==> exists|j: int|
                    0 <= j < i && (#[trigger] out[a].key()) == records@[j].key(),
            forall|j: int|
                0 <= j < i && config.has_filesystem(#[trigger] records@[j].key().0) ==> exists|
                    a: int,
                |
                    0 <= a < out.len() && (#[trigger] out[a].key()) == records@[j].key(),
        decreases records@.len() - i,
    {
        let rec = &records[i];
        match config.find_filesystem(rec.filesystem.as_str()) {
            Option::None => {},
            Option::Some(fs) => {
                let volume = to_volume_string(
                    fs.root.as_str(),
                    rec.user.as_str(),
                    rec.name.as_str(),
                );
                let state = crate::schedule::classify(rec.expiration_time, fs.expired_retention, now);
                let days = crate::schedule::report_days_exec(
                    rec.expiration_time,
                    fs.expired_retention,
                    now,
                );
                proof {
                    assert(records@[i as int].key().0 == rec.filesystem@);
                    assert forall|a: int| 0 <= a < out.len() implies (#[trigger] out[a].key())
                        != records@[i as int].key() by {
                        let j = choose|j: int|
                            0 <= j < i && (#[trigger] out[a].key()) == records@[j].key();
                        assert(records@[j].key() != records@[i as int].key());
                    }
                }
                let ghost old_out = out@;
                let entry = ListEntry {
                    filesystem: rec.filesystem.clone(),
                    user: rec.user.clone(),
                    name: rec.name.clone(),
                    expiration_time: rec.expiration_time,
                    volume,
                    state,
                    days,
                };
                proof {
                    assert(entry.key() == records@[i as int].key());
                    assert(listed_entry(store, config, fu, ff, now, entry));
                }
                out.push(entry);
                proof {
                    assert(out@[old_out.len() as int].key() == records@[i as int].key());
                    assert(forall|a: int| 0 <= a < old_out.len() ==> out@[a] == old_out[a]);
                    assert forall|a: int| 0 <= a < out@.len() implies exists|j: int|
                        0 <= j < i + 1 && (#[trigger] out@[a].key()) == records@[j].key() by {
                        if a < old_out.len() {
                            let j = choose|j: int|
                                0 <= j < i && (#[trigger] old_out[a].key()) == records@[j].key();
                            assert(out@[a].key() == records@[j].key());
                        } else {
                            assert(out@[a].key() == records@[i as int].key());
                        }
                    }
                    assert forall|j: int|
                        0 <= j < i + 1 && config.has_filesystem(
                            #[trigger] records@[j].key().0,
                        ) implies exists|a: int|
                        0 <= a < out@.len() && (#[trigger] out@[a].key()) == records@[j].key() by {
                        if j < i {
                            let a = choose|a: int|
                                0 <= a < old_out.len() && (#[trigger] old_out[a].key())
                                    == records@[j].key();
                            assert(out@[a].key() == records@[j].key());
                        } else {
                            assert(out@[old_out.len() as int].key() == records@[j].key());
                        }
                    }
                }
            },
        }
        i = i + 1;
    }
    proof {
        assert forall|k: WsKey|
            #[trigger] store.model().contains_key(k) && crate::store::record_selected(k, fu, ff)
                && config.has_filesystem(k.0) implies exists|a: int|
            0 <= a < out.len() && (#[trigger] out[a].key()) == k by {
            let j = choose|j: int|
                0 <= j < records@.len() && (#[trigger] records@[j].key()) == k;
            assert(config.has_filesystem(records@[j].key().0));
        }
    }
    out
}

/// One row of the filesystem report: the policy from configuration and
/// the live usage from the backend.
pub struct FilesystemUsage {
    /// The filesystem's name.
    pub name: String,
    /// Bytes used under the filesystem's root.
    pub used: u64,
    /// Bytes still available to it.
    pub available: u64,
    /// `used + available`, saturating.
    pub total: u64,
    /// Maximum number of days a workspace may exist.
    pub max_duration: i64,
    /// Days an expired workspace is retained.
    pub expired_retention: i64,
    /// Whether creating and extending is disabled.
    pub disabled: bool,
}

/// Reports every configured filesystem, in configuration order, with its
/// live usage; the first backend failure aborts the report.
pub fn filesystems<B: VolumeBackend>(backend: &B, config: &Config) -> (r: Result<
    Vec<FilesystemUsage>,
    LifecycleError,
>)
    requires
        backend.inv(),
        config.wf(),
    ensures
        match r {
            Result::Ok(rows) => rows@.len() == config.filesystems@.len() && forall|i: int|
                0 <= i < rows@.len() ==> (#[trigger] rows@[i]).name@ == config.filesystems@[i].name@
                    && rows@[i].max_duration == config.filesystems@[i].max_duration && rows@[
                i].expired_retention == config.filesystems@[i].expired_retention && rows@[
                i].disabled == config.filesystems@[i].disabled && rows@[i].total == (if rows@[
                i].used + rows@[i].available <= u64::MAX {
                    (rows@[i].used + rows@[i].available) as u64
                } else {
                    u64::MAX
                }),
            Result::Err(e) => e is Backend,
        },
        config.filesystems@.len() == 0 ==> r is Ok,
        (backend.obeys_model() && forall|i: int|
            0 <= i < config.filesystems@.len() ==> backend.model().contains_key(
                (#[trigger] config.filesystems@[i]).root@,
            )) ==> r is Ok,
{
    let mut rows: Vec<FilesystemUsage> = Vec::new();
    let mut i: usize = 0;
    while i < config.filesystems.len()
        invariant
            backend.inv(),
            config.wf(),
            i <= config.filesystems@.len(),
            rows@.len() == i,
            forall|j: int|
                0 <= j < i ==> (#[trigger] rows@[j]).name@ == config.filesystems@[j].name@ && rows@[
                j].max_duration == config.filesystems@[j].max_duration && rows@[
                j].expired_retention == config.filesystems@[j].expired_retention && rows@[
                j].disabled == config.filesystems@[j].disabled && rows@[j].total == (if rows@[
                j].used + rows@[j].available <= u64::MAX {
                    (rows@[j].used + rows@[j].available) as u64
                } else {
                    u64::MAX
                }),
        decreases config.filesystems@.len() - i,
    {
        let fs = &config.filesystems[i];
        let used = match backend.used_bytes(fs.root.as_str()) {
            Result::Err(e) => {
                return Result::Err(LifecycleError::Backend(e));
            },
            Result::Ok(v) => v,
        };
        let available = match backend.available_bytes(fs.root.as_str()) {
            Result::Err(e) => {
                return Result::Err(LifecycleError::Backend(e));
            },
            Result::Ok(v) => v,
        };
        let total = if available <= u64::MAX - used {
            used + available
        } else {
            u64::MAX
        };
        rows.push(FilesystemUsage {
            name: fs.name.clone(),
            used,
            available,
            total,
            max_duration: fs.max_duration,
            expired_retention: fs.expired_retention,
            disabled: fs.disabled,
        });
        i = i + 1;
    }
    Result::Ok(rows)
}

} // verus!
