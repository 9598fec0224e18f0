//! Properties that hold across the library's operations, each proved over
//! the specifications that the operations' contracts use.

use std::time::Duration;

use vstd::prelude::*;

use crate::api::{default_read_timeout, default_write_timeout, method_spec, path_spec, ApiCall};
use crate::client::{apply_client_opt, apply_client_opts, ClientOpt, ClientView, RequestOpt, RequestOptions};
use crate::balloon::{apply_balloon_opts, BalloonOpt};
use crate::models::Balloon;
use crate::config::{first_root_drive, load_snapshot_checks_spec, machine_cfg_check_spec, validation_checks_spec, Config};
use crate::drives::{DriveOpt, added_drive_spec, builder_wf, root_drive_spec, DrivesBuilderView, ROOT_DRIVE_NAME};
use crate::models::DriveView;
use crate::machine::{
    begin_start_spec, firecracker_args_spec, log_output_spec, mmds_interface_ids, mmds_version_spec,
    net_ns_path_spec, readiness_step_spec, LogOutputView, ReadinessStep,
};
use crate::cni::vmconf::{dotted_quad, ip_boot_param_spec, netmask_bits};
use crate::machine::join_with;
use crate::config::MMDSVersion;
use crate::cni::{iface_views, CniIpConfig, CniResult};
use crate::cni::internal::LinkView;
use crate::cni::vmconf::{plan_spec, conf_from_lookup_spec, conf_spec, VmConfErrorView};
use crate::text::{decimal, lemma_decimal_first_digit, lemma_decimal_injective};
use crate::path::{file_name, join_path, last_segment, leading_slashes, strip_trailing_slashes};
use crate::jailer::{jailer_config_error, JailerConfig, rootfs_spec, drive_link_steps, file_name_or, fifo_link_steps, link_steps, LinkStepView, cgroup_pairs, chroot_path, flag_pair, jailer_args, numa_args, JailerCommandBuilderView};
use crate::text::signed_decimal;
use crate::cni::internal::{name_is, sandbox_is, sandbox_is_not, vm_tap_pair_spec};
use crate::cni::CniInterfaceView;
use crate::http::{
    content_length_spec, delim_at, first_delim, header_end, response_progress, response_spec,
    status_spec,
};
use crate::handlers::{
    inserted_after, is_copy_of, names, swapped, without_name, without_snapshot_skipped, Handler,
    ATTACH_DRIVES_HANDLER_NAME, CONFIG_MMDS_HANDLER_NAME, CREATE_BOOT_SOURCE_HANDLER_NAME,
    CREATE_MACHINE_HANDLER_NAME, CREATE_NETWORK_INTERFACES_HANDLER_NAME, LOAD_SNAPSHOT_HANDLER_NAME,
    SETUP_KERNEL_ARGS_HANDLER_NAME, VALIDATE_CFG_HANDLER_NAME,
    VALIDATE_LOAD_SNAPSHOT_CFG_HANDLER_NAME,
};
use crate::seqs::lemma_filter_push;
use crate::error::{message_spec, ErrorView};
use crate::cpu_template::{first_vendor_id, vendor_id_of_line_spec};
use crate::signals::{acquire_all, count_of, forward_targets_spec, newly_forwarded, release_one};
use crate::fifo::{capture_step, FifoAction, FifoCapture, FifoEvent};
use crate::http::{lines, lossy_utf8, request_head_spec};
use crate::kernelargs::{lemma_render_map, lex_lt, map_of, render_map};

verus! {

/// The value of the last read-timeout option of `opts`, if any.
pub open spec fn last_read_override(opts: Seq<RequestOpt>) -> Option<Option<Duration>>
    decreases opts.len(),
{
    if opts.len() == 0 {
        None
    } else {
        match opts.last() {
            RequestOpt::ReadTimeout(t) => Some(t),
            RequestOpt::WriteTimeout(_) => last_read_override(opts.drop_last()),
        }
    }
}

/// The value of the last write-timeout option of `opts`, if any.
pub open spec fn last_write_override(opts: Seq<RequestOpt>) -> Option<Option<Duration>>
    decreases opts.len(),
{
    if opts.len() == 0 {
        None
    } else {
        match opts.last() {
            RequestOpt::WriteTimeout(t) => Some(t),
            RequestOpt::ReadTimeout(_) => last_write_override(opts.drop_last()),
        }
    }
}

/// Request options override the read and the write timeout independently:
/// the read override is the last read option's value whatever write options
/// are given, and the other way round.
pub proof fn law_request_options_independent(opts: Seq<RequestOpt>)
    ensures
        RequestOptions::opts_spec(opts) == (last_read_override(opts), last_write_override(opts)),
    decreases opts.len(),
{
    if opts.len() > 0 {
        law_request_options_independent(opts.drop_last());
    }
}

/// Removing the handlers named `name` leaves exactly the names that are not
/// `name`.
pub proof fn law_remove_names<F>(s: Seq<Handler<F>>, name: Seq<char>)
    ensures
        forall|x: Seq<char>|
            #[trigger] names(without_name(s, name)).contains(x) <==> (names(s).contains(x) && x != name),
    decreases s.len(),
{
    broadcast use vstd::seq_lib::lemma_seq_contains_after_push;

    if s.len() > 0 {
        let d = s.drop_last();
        law_remove_names(d, name);
        assert(names(s) =~= names(d).push(s.last().name@));
        let r = without_name(d, name);
        if s.last().name@ != name {
            assert(names(without_name(s, name)) =~= names(r).push(s.last().name@));
        }
    } else {
        assert(names(s) =~= Seq::<Seq<char>>::empty());
        assert(names(without_name(s, name)) =~= Seq::<Seq<char>>::empty());
    }
}

/// After `swappend(h)`, the list has a handler named like `h`: the handlers
/// of that name were replaced by `h`, or `h` was appended.
pub proof fn law_swappend_has<F: Clone>(before: Seq<Handler<F>>, after: Seq<Handler<F>>, h: Handler<F>)
    requires
        names(before).contains(h.name@) ==> swapped(before, after, h),
        !names(before).contains(h.name@) ==> after == before.push(h),
    ensures
        names(after).contains(h.name@),
{
    if names(before).contains(h.name@) {
        let i = choose|i: int| 0 <= i < names(before).len() && names(before)[i] == h.name@;
        assert(before[i].name@ == h.name@);
        assert(is_copy_of(h, after[i]));
        assert(names(after)[i] == h.name@);
    } else {
        assert(names(after)[before.len() as int] == h.name@);
    }
}

/// A machine that loads a snapshot never runs the steps that a snapshot
/// replaces (kernel arguments, machine and boot source, drives, network
/// interfaces, metadata service), loads the snapshot as its last step, and
/// validates its configuration for a snapshot load last.
pub proof fn law_snapshot_handlers<F>(
    fc_init: Seq<Handler<F>>,
    validation: Seq<Handler<F>>,
    load_validation: Handler<F>,
    load: Handler<F>,
)
    ensures
        ({
            let r = without_name(without_snapshot_skipped(fc_init), LOAD_SNAPSHOT_HANDLER_NAME@).push(load);
            &&& !names(r.drop_last()).contains(SETUP_KERNEL_ARGS_HANDLER_NAME@)
            &&& !names(r.drop_last()).contains(CREATE_MACHINE_HANDLER_NAME@)
            &&& !names(r.drop_last()).contains(CREATE_BOOT_SOURCE_HANDLER_NAME@)
            &&& !names(r.drop_last()).contains(ATTACH_DRIVES_HANDLER_NAME@)
            &&& !names(r.drop_last()).contains(CREATE_NETWORK_INTERFACES_HANDLER_NAME@)
            &&& !names(r.drop_last()).contains(CONFIG_MMDS_HANDLER_NAME@)
            &&& !names(r.drop_last()).contains(LOAD_SNAPSHOT_HANDLER_NAME@)
            &&& r.last() == load
        }),
        ({
            let v = without_name(
                without_name(validation, VALIDATE_CFG_HANDLER_NAME@),
                VALIDATE_LOAD_SNAPSHOT_CFG_HANDLER_NAME@,
            ).push(load_validation);
            &&& !names(v.drop_last()).contains(VALIDATE_CFG_HANDLER_NAME@)
            &&& !names(v.drop_last()).contains(VALIDATE_LOAD_SNAPSHOT_CFG_HANDLER_NAME@)
            &&& v.last() == load_validation
        }),
{
    let s1 = without_name(fc_init, SETUP_KERNEL_ARGS_HANDLER_NAME@);
    let s2 = without_name(s1, CREATE_MACHINE_HANDLER_NAME@);
    let s3 = without_name(s2, CREATE_BOOT_SOURCE_HANDLER_NAME@);
    let s4 = without_name(s3, ATTACH_DRIVES_HANDLER_NAME@);
    let s5 = without_name(s4, CREATE_NETWORK_INTERFACES_HANDLER_NAME@);
    let s6 = without_name(s5, CONFIG_MMDS_HANDLER_NAME@);
    let s7 = without_name(s6, LOAD_SNAPSHOT_HANDLER_NAME@);
    law_remove_names(fc_init, SETUP_KERNEL_ARGS_HANDLER_NAME@);
    law_remove_names(s1, CREATE_MACHINE_HANDLER_NAME@);
    law_remove_names(s2, CREATE_BOOT_SOURCE_HANDLER_NAME@);
    law_remove_names(s3, ATTACH_DRIVES_HANDLER_NAME@);
    law_remove_names(s4, CREATE_NETWORK_INTERFACES_HANDLER_NAME@);
    law_remove_names(s5, CONFIG_MMDS_HANDLER_NAME@);
    law_remove_names(s6, LOAD_SNAPSHOT_HANDLER_NAME@);
    assert(s7.push(load).drop_last() =~= s7);
    let v1 = without_name(validation, VALIDATE_CFG_HANDLER_NAME@);
    let v2 = without_name(v1, VALIDATE_LOAD_SNAPSHOT_CFG_HANDLER_NAME@);
    law_remove_names(validation, VALIDATE_CFG_HANDLER_NAME@);
    law_remove_names(v1, VALIDATE_LOAD_SNAPSHOT_CFG_HANDLER_NAME@);
    assert(v2.push(load_validation).drop_last() =~= v2);
}

proof fn lemma_first_root_after_plain(s: Seq<DriveView>, root: DriveView)
    requires
        root.is_root_device == Some(true),
        forall|i: int| 0 <= i < s.len() ==> (#[trigger] s[i]).is_root_device == Some(false),
    ensures
        first_root_drive(s.push(root)) == Some(root),
    decreases s.len(),
{
    if s.len() > 0 {
        assert(s.push(root).drop_first() =~= s.drop_first().push(root));
        assert forall|i: int| 0 <= i < s.drop_first().len() implies (#[trigger] s.drop_first()[i]).is_root_device
            == Some(false) by {
            assert(s.drop_first()[i] == s[i + 1]);
        }
        lemma_first_root_after_plain(s.drop_first(), root);
        assert(s.push(root)[0] == s[0]);
    }
}

/// The drive list that a builder built by `DrivesBuilder::new`,
/// `with_root_drive` and `add_drive` produces has exactly one root device:
/// its last drive, the root drive. So validation and the jailer find the
/// root drive that the builder was given.
pub proof fn law_built_drives_single_root(b: DrivesBuilderView)
    requires
        builder_wf(b),
    ensures
        first_root_drive(b.drives.push(b.root_drive)) == Some(b.root_drive),
        forall|i: int|
            0 <= i < b.drives.len() ==> (#[trigger] b.drives.push(b.root_drive)[i]).is_root_device != Some(true),
{
    lemma_first_root_after_plain(b.drives, b.root_drive);
    assert forall|i: int| 0 <= i < b.drives.len() implies (#[trigger] b.drives.push(b.root_drive)[i]).is_root_device
        != Some(true) by {
        assert(b.drives.push(b.root_drive)[i] == b.drives[i]);
    }
}

/// A machine starts at most once: whatever became of an attempt to start
/// it, a later attempt is refused.
pub proof fn law_start_once(started: bool)
    ensures
        !begin_start_spec(begin_start_spec(started).0).1,
{
}

/// Splitting interfaces by sandbox loses and duplicates none: the two parts
/// together have as many interfaces as the whole.
pub proof fn law_sandbox_partition(ifaces: Seq<CniInterfaceView>, sandbox: Seq<char>)
    ensures
        ifaces.filter(sandbox_is(sandbox)).len() + ifaces.filter(sandbox_is_not(sandbox)).len()
            == ifaces.len(),
    decreases ifaces.len(),
{
    if ifaces.len() > 0 {
        let d = ifaces.drop_last();
        law_sandbox_partition(d, sandbox);
        assert(ifaces =~= d.push(ifaces.last()));
        lemma_filter_push(d, ifaces.last(), sandbox_is(sandbox));
        lemma_filter_push(d, ifaces.last(), sandbox_is_not(sandbox));
    } else {
        reveal(Seq::filter);
    }
}

/// The pair that `vm_tap_pair` finds is the microVM's interface, inside its
/// sandbox, and a tap of the same name outside it.
pub proof fn law_tap_pair_shape(ifaces: Seq<CniInterfaceView>, vm_id: Seq<char>)
    ensures
        vm_tap_pair_spec(ifaces, vm_id) matches Ok((vm, tap)) ==> {
            &&& vm.sandbox == vm_id
            &&& tap.sandbox != vm_id
            &&& tap.name == vm.name
            &&& ifaces.contains(vm)
            &&& ifaces.contains(tap)
        },
{
    broadcast use vstd::seq_lib::group_filter_ensures;

    let vm = ifaces.filter(sandbox_is(vm_id));
    let others = ifaces.filter(sandbox_is_not(vm_id));
    if vm.len() == 1 {
        let taps = others.filter(name_is(vm[0].name));
        if taps.len() == 1 {
            assert(sandbox_is(vm_id)(vm[0]));
            assert(name_is(vm[0].name)(taps[0]));
            assert(taps.contains(taps[0]));
            others.lemma_filter_contains_rev(name_is(vm[0].name), taps[0]);
            let j = choose|j: int| 0 <= j < others.len() && others[j] == taps[0];
            assert(sandbox_is_not(vm_id)(others[j]));
            assert(vm.contains(vm[0]));
            ifaces.lemma_filter_contains_rev(sandbox_is(vm_id), vm[0]);
            ifaces.lemma_filter_contains_rev(sandbox_is_not(vm_id), taps[0]);
        }
    }
}

/// A response succeeds exactly when its status is in the 2xx range, and
/// then its body is what the call gives back.
pub proof fn law_success_iff_2xx(head: Seq<u8>, body: Seq<u8>)
    ensures
        response_spec(head, body) is Ok <==> (status_spec(head) matches Ok(s) && 200 <= s < 300),
        response_spec(head, body) is Ok ==> response_spec(head, body) == Ok::<Seq<u8>, crate::error::ErrorView>(body),
{
}

proof fn lemma_header_end_extends(data: Seq<u8>, more: Seq<u8>)
    requires
        header_end(data) is Some,
    ensures
        header_end(data + more) == header_end(data),
{
    let p = choose|i: int| first_delim(data, i);
    let d = data + more;
    assert(delim_at(d, p)) by {
        assert(d[p] == data[p] && d[p + 1] == data[p + 1] && d[p + 2] == data[p + 2] && d[p + 3] == data[p + 3]);
    }
    assert forall|j: int| 0 <= j < p implies !delim_at(d, j) by {
        assert(!delim_at(data, j));
        assert(d[j] == data[j] && d[j + 1] == data[j + 1] && d[j + 2] == data[j + 2] && d[j + 3] == data[j + 3]);
    }
    assert(first_delim(d, p));
    let q = choose|i: int| first_delim(d, i);
    if q < p {
        assert(!delim_at(d, q));
    } else if q > p {
        assert(!delim_at(d, p));
    }
}

/// Once the body that a response declares has arrived, the bytes that come
/// after it change nothing: the response amounts to the same, whether or
/// not the connection has been closed.
pub proof fn law_response_complete_is_final(
    method: Seq<char>,
    data: Seq<u8>,
    more: Seq<u8>,
    eof1: bool,
    eof2: bool,
)
    requires
        header_end(data) matches Some(p) && content_length_spec(data.take(p as int)) matches Some(cl)
            && data.len() >= p + 4 + cl,
    ensures
        response_progress(method, data + more, eof2) == response_progress(method, data, eof1),
{
    lemma_header_end_extends(data, more);
    let p = header_end(data).unwrap();
    let d = data + more;
    assert(d.take(p as int) =~= data.take(p as int));
    let cl = content_length_spec(data.take(p as int)).unwrap();
    assert(d.skip(p as int + 4).take(cl as int) =~= data.skip(p as int + 4).take(cl as int));
}

/// A plain file name: nonempty, without slashes, and neither `.` nor `..`.
pub open spec fn plain_file_name(name: Seq<char>) -> bool {
    &&& name.len() > 0
    &&& forall|i: int| 0 <= i < name.len() ==> #[trigger] name[i] != '/'
    &&& name != seq!['.']
    &&& name != seq!['.', '.']
}

proof fn lemma_last_segment_after_slash(x: Seq<char>, name: Seq<char>)
    requires
        x.len() == 0 || x.last() == '/',
        forall|i: int| 0 <= i < name.len() ==> #[trigger] name[i] != '/',
    ensures
        last_segment(x + name) == name,
    decreases name.len(),
{
    if name.len() == 0 {
        assert(x + name =~= x);
    } else {
        let d = name.drop_last();
        assert forall|i: int| 0 <= i < d.len() implies #[trigger] d[i] != '/' by {
            assert(d[i] == name[i]);
        }
        lemma_last_segment_after_slash(x, d);
        assert((x + name).drop_last() =~= x + d);
        assert((x + name).last() == name.last());
        assert(name.last() != '/') by {
            assert(name[name.len() - 1] != '/');
        }
        assert(last_segment(x + d).push(name.last()) =~= name);
    }
}

/// A file joined onto a directory keeps its name: the last component of
/// `join(dir, name)` is `name`. So the files that the jailer links into its
/// root keep the names the microVM is told.
pub proof fn law_join_keeps_file_name(dir: Seq<char>, name: Seq<char>)
    requires
        plain_file_name(name),
    ensures
        file_name(join_path(dir, name)) == Some(name),
{
    let j = join_path(dir, name);
    assert(name[0] != '/');
    let x = if dir.len() == 0 || dir.last() == '/' {
        dir
    } else {
        dir + seq!['/']
    };
    assert(j =~= x + name);
    assert(x.len() == 0 || x.last() == '/');
    assert(j.last() == name.last());
    assert(name.last() != '/') by {
        assert(name[name.len() - 1] != '/');
    }
    assert(strip_trailing_slashes(j) == j);
    lemma_last_segment_after_slash(x, name);
}

proof fn lemma_mmds_ids_members(allow: Seq<bool>)
    ensures
        forall|x: Seq<char>|
            #[trigger] mmds_interface_ids(allow).contains(x) <==> exists|j: int|
                0 <= j < allow.len() && allow[j] && x == decimal((j + 1) as nat),
    decreases allow.len(),
{
    broadcast use vstd::seq_lib::lemma_seq_contains_after_push;

    if allow.len() > 0 {
        let d = allow.drop_last();
        lemma_mmds_ids_members(d);
        assert forall|x: Seq<char>|
            #[trigger] mmds_interface_ids(allow).contains(x) <==> exists|j: int|
                0 <= j < allow.len() && allow[j] && x == decimal((j + 1) as nat) by {
            if mmds_interface_ids(allow).contains(x) {
                if allow.last() && x == decimal(allow.len() as nat) {
                    assert(allow[allow.len() - 1] && x == decimal((allow.len() - 1 + 1) as nat));
                } else {
                    assert(mmds_interface_ids(d).contains(x));
                    let j = choose|j: int| 0 <= j < d.len() && d[j] && x == decimal((j + 1) as nat);
                    assert(allow[j]);
                }
            }
            if exists|j: int| 0 <= j < allow.len() && allow[j] && x == decimal((j + 1) as nat) {
                let j = choose|j: int| 0 <= j < allow.len() && allow[j] && x == decimal((j + 1) as nat);
                if j < d.len() {
                    assert(d[j]);
                    assert(mmds_interface_ids(d).contains(x));
                }
            }
        }
    } else {
        assert(mmds_interface_ids(allow) =~= Seq::<Seq<char>>::empty());
    }
}

/// The metadata service is reachable exactly through the interfaces that
/// allow it: the id of interface number `k + 1` is listed exactly when that
/// interface allows the service.
pub proof fn law_mmds_ids_exact(allow: Seq<bool>, k: int)
    requires
        0 <= k < allow.len(),
    ensures
        mmds_interface_ids(allow).contains(decimal((k + 1) as nat)) <==> allow[k],
{
    lemma_mmds_ids_members(allow);
    if mmds_interface_ids(allow).contains(decimal((k + 1) as nat)) {
        let j = choose|j: int|
            0 <= j < allow.len() && allow[j] && decimal((k + 1) as nat) == decimal((j + 1) as nat);
        lemma_decimal_injective((k + 1) as nat, (j + 1) as nat);
    }
}

/// Drives added without an id option get distinct ids, and none of them
/// is the root drive's.
pub proof fn law_drive_ids_distinct(i: nat, j: nat, p: Seq<char>, q: Seq<char>, ro_i: bool, ro_j: bool)
    ensures
        i != j ==> added_drive_spec(i, p, ro_i).drive_id != added_drive_spec(j, q, ro_j).drive_id,
        added_drive_spec(i, p, ro_i).drive_id != root_drive_spec(q).drive_id,
{
    if i != j && decimal(i) == decimal(j) {
        lemma_decimal_injective(i, j);
    }
    lemma_decimal_first_digit(i);
    reveal_strlit("root_drive");
    assert(ROOT_DRIVE_NAME@[0] == 'r');
}

/// A configuration with validation disabled is accepted as it is: no
/// file-system check is made before a boot or a snapshot load, and the
/// machine's size is not checked.
pub proof fn law_disabled_validation_accepts(cfg: Config)
    requires
        cfg.disable_validation,
    ensures
        validation_checks_spec(cfg).len() == 0,
        load_snapshot_checks_spec(cfg).len() == 0,
        machine_cfg_check_spec(cfg) is Ok,
{
}

/// With validation on, a boot always checks that the kernel image exists
/// first and that the API socket does not exist last.
pub proof fn law_boot_checks_frame(cfg: Config)
    requires
        !cfg.disable_validation,
    ensures
        validation_checks_spec(cfg).len() >= 2,
        validation_checks_spec(cfg)[0] == (crate::config::ConfigCheckView::PathExists {
            kind: "kernel image path"@,
            path: cfg.kernel_image_path@,
        }),
        validation_checks_spec(cfg).last() == (crate::config::ConfigCheckView::SocketAbsent {
            path: cfg.socket_path@,
        }),
{
}


proof fn lemma_trimmed_has_no_leading_slash(p: Seq<char>)
    ensures
        leading_slashes(p) <= p.len(),
        p.skip(leading_slashes(p) as int).len() > 0 ==> p.skip(leading_slashes(p) as int)[0] != '/',
    decreases p.len(),
{
    if p.len() > 0 && p[0] == '/' {
        let q = p.drop_first();
        lemma_trimmed_has_no_leading_slash(q);
        assert(p.skip(leading_slashes(p) as int) =~= q.skip(leading_slashes(q) as int));
    } else {
        assert(p.skip(0) =~= p);
    }
}

/// A jailed machine's socket lies inside its chroot: the host path starts
/// with the chroot's root, and what follows is a separator (unless the root
/// already ends in one) and the socket path without its leading slashes.
pub proof fn law_jail_socket_in_rootfs(rootfs: Seq<char>, socket_path: Seq<char>)
    ensures
        ({
            let rest = socket_path.skip(leading_slashes(socket_path) as int);
            let host = chroot_path(rootfs, socket_path);
            &&& rootfs.is_prefix_of(host)
            &&& (host == rootfs + rest || host == rootfs + seq!['/'] + rest)
        }),
{
    lemma_trimmed_has_no_leading_slash(socket_path);
    let rest = socket_path.skip(leading_slashes(socket_path) as int);
    let host = chroot_path(rootfs, socket_path);
    if rootfs.len() == 0 || rootfs.last() == '/' {
        assert(host =~= rootfs + rest);
        assert(host.take(rootfs.len() as int) =~= rootfs);
    } else {
        assert(host =~= rootfs + seq!['/'] + rest);
        assert(host.take(rootfs.len() as int) =~= rootfs);
    }
}


/// The calls that read state from the API.
pub open spec fn is_get_call(c: ApiCall) -> bool {
    ||| c is GetFirecrackerVersion
    ||| c is GetMachineConfiguration
    ||| c is GetMmds
    ||| c is DescribeInstance
    ||| c is GetBalloonConfig
    ||| c is GetBalloonStats
    ||| c is GetExportVmConfig
}

/// The calls that change part of a resource.
pub open spec fn is_patch_call(c: ApiCall) -> bool {
    ||| c is PatchMachineConfiguration
    ||| c is PatchGuestDrive
    ||| c is PatchGuestNetworkInterface
    ||| c is PatchVm
    ||| c is PatchMmds
    ||| c is PatchBalloon
    ||| c is PatchBalloonStatsInterval
}

/// Every reading call is sent with `GET`, every partial update (pausing or
/// resuming the VM included) with `PATCH`, and every other call, which puts
/// a whole resource or starts an action, with `PUT`.
pub proof fn law_api_methods(c: ApiCall)
    ensures
        is_get_call(c) ==> method_spec(c) == "GET"@,
        is_patch_call(c) ==> method_spec(c) == "PATCH"@,
        !is_get_call(c) && !is_patch_call(c) ==> method_spec(c) == "PUT"@,
        method_spec(ApiCall::PatchVm) == "PATCH"@,
{
}

/// Each call goes to the path of the resource it acts on: calls on one
/// resource share its path, and calls on one device end with the device's
/// id.
pub proof fn law_api_paths(id: &str)
    ensures
        path_spec(ApiCall::GetFirecrackerVersion) == "/version"@,
        path_spec(ApiCall::PutLogger) == "/logger"@,
        path_spec(ApiCall::PutMetrics) == "/metrics"@,
        path_spec(ApiCall::PutMachineConfiguration) == "/machine-config"@,
        path_spec(ApiCall::PatchMachineConfiguration) == "/machine-config"@,
        path_spec(ApiCall::GetMachineConfiguration) == "/machine-config"@,
        path_spec(ApiCall::PutGuestBootSource) == "/boot-source"@,
        path_spec(ApiCall::PutCpuConfiguration) == "/cpu-config"@,
        path_spec(ApiCall::PutEntropyDevice) == "/entropy"@,
        path_spec(ApiCall::PutGuestDrive(id)) == "/drives/"@ + id@,
        path_spec(ApiCall::PatchGuestDrive(id)) == "/drives/"@ + id@,
        path_spec(ApiCall::PutGuestNetworkInterface(id)) == "/network-interfaces/"@ + id@,
        path_spec(ApiCall::PatchGuestNetworkInterface(id)) == "/network-interfaces/"@ + id@,
        path_spec(ApiCall::PutGuestVsock) == "/vsock"@,
        path_spec(ApiCall::PatchVm) == "/vm"@,
        path_spec(ApiCall::CreateSnapshot) == "/snapshot/create"@,
        path_spec(ApiCall::LoadSnapshot) == "/snapshot/load"@,
        path_spec(ApiCall::CreateSyncAction) == "/actions"@,
        path_spec(ApiCall::PutMmds) == "/mmds"@,
        path_spec(ApiCall::GetMmds) == "/mmds"@,
        path_spec(ApiCall::PatchMmds) == "/mmds"@,
        path_spec(ApiCall::PutMmdsConfig) == "/mmds/config"@,
        path_spec(ApiCall::DescribeInstance) == "/"@,
        path_spec(ApiCall::PutBalloon) == "/balloon"@,
        path_spec(ApiCall::GetBalloonConfig) == "/balloon"@,
        path_spec(ApiCall::PatchBalloon) == "/balloon"@,
        path_spec(ApiCall::GetBalloonStats) == "/balloon/statistics"@,
        path_spec(ApiCall::PatchBalloonStatsInterval) == "/balloon/statistics"@,
        path_spec(ApiCall::GetExportVmConfig) == "/vm/config"@,
{
}

/// Without overrides, snapshots are read with no timeout, attaching a drive
/// waits the drive timeout both ways, and every other call waits the
/// request timeout both ways.
pub proof fn law_api_default_timeouts(c: ApiCall, request_timeout: Duration, drive_timeout: Duration)
    ensures
        (c is CreateSnapshot || c is LoadSnapshot) ==> default_read_timeout(c, request_timeout, drive_timeout)
            is None,
        c is PutGuestDrive ==> default_read_timeout(c, request_timeout, drive_timeout) == Some(drive_timeout)
            && default_write_timeout(c, request_timeout, drive_timeout) == Some(drive_timeout),
        !(c is CreateSnapshot || c is LoadSnapshot || c is PutGuestDrive) ==> default_read_timeout(
            c,
            request_timeout,
            drive_timeout,
        ) == Some(request_timeout),
        !(c is PutGuestDrive) ==> default_write_timeout(c, request_timeout, drive_timeout) == Some(
            request_timeout,
        ),
{
}


/// The metadata service is configured with the version string of the
/// requested protocol: `V1` for version 1, `V2` for version 2.
pub proof fn law_mmds_version_string(v: MMDSVersion)
    ensures
        v is V1 ==> mmds_version_spec(v) == "V1"@,
        v is V2 ==> mmds_version_spec(v) == "V2"@,
{
}

/// The guest's configuration carries the tap's name and namespace, the
/// guest interface's MAC address, the given MTU and address, and the CNI
/// result's routes and DNS settings unchanged; the guest interface's name is
/// left to the guest.
pub proof fn law_conf_carries_cni_settings(
    result: CniResult,
    vm: CniInterfaceView,
    tap: CniInterfaceView,
    ip: CniIpConfig,
    mtu: i32,
)
    ensures
        ({
            let c = conf_spec(result, vm, tap, ip, mtu);
            &&& c.tap_name == tap.name
            &&& c.netns_path == tap.sandbox
            &&& c.vm_if_name is None
            &&& c.vm_mac_addr == vm.mac
            &&& c.vm_mtu == mtu
            &&& c.vm_ip_config == Some(ip)
            &&& c.vm_routes == result.routes@
            &&& c.vm_nameservers == result.dns.nameservers.deep_view()
            &&& c.vm_domain == result.dns.domain.deep_view()
            &&& c.vm_search_domains == result.dns.search.deep_view()
            &&& c.vm_resolver_options == result.dns.options.deep_view()
        }),
{
}

/// When the tap is found, the configuration takes the tap's MTU and keeps
/// the CNI result's DNS settings; when it is not, the error names the tap
/// and the namespace it was looked for in.
pub proof fn law_conf_from_lookup(
    result: CniResult,
    vm: CniInterfaceView,
    tap: CniInterfaceView,
    ip: CniIpConfig,
    lookup: Result<LinkView, Seq<char>>,
)
    ensures
        lookup matches Ok(l) ==> (conf_from_lookup_spec(result, vm, tap, ip, lookup) matches Ok(c)
            && c.vm_mtu == l.mtu && c.tap_name == tap.name && c.netns_path == tap.sandbox
            && c.vm_nameservers == result.dns.nameservers.deep_view()
            && c.vm_domain == result.dns.domain.deep_view()
            && c.vm_search_domains == result.dns.search.deep_view()
            && c.vm_resolver_options == result.dns.options.deep_view()
            && c.vm_routes == result.routes@),
        lookup matches Err(m) ==> conf_from_lookup_spec(result, vm, tap, ip, lookup) == Err::<
            crate::cni::vmconf::StaticNetworkConfView,
            VmConfErrorView,
        >(VmConfErrorView::LinkLookup { iface_name: tap.name, netns_path: tap.sandbox, source: m }),
{
}


/// The text of an optional path; empty when it is unset.
pub open spec fn path_text(p: Option<String>) -> Seq<char> {
    match p {
        Some(t) => t@,
        None => Seq::empty(),
    }
}

/// With validation on, restoring a snapshot first checks, in order, that the
/// file of every drive exists, one check per drive; then that the API socket
/// does not exist; then that the snapshot's memory (the backend's path when
/// a backend is given, else the memory file) and the snapshot file exist.
pub proof fn law_load_snapshot_checks_every_drive(cfg: Config)
    requires
        !cfg.disable_validation,
    ensures
        ({
            let c = load_snapshot_checks_spec(cfg);
            let n = cfg.drives@.len() as int;
            &&& c.len() == n + 3
            &&& forall|i: int|
                0 <= i < n ==> c[i] == (crate::config::ConfigCheckView::PathExists {
                    kind: "drive path"@,
                    path: path_text(#[trigger] cfg.drives@[i].path_on_host),
                })
            &&& c[n] == (crate::config::ConfigCheckView::SocketAbsent { path: cfg.socket_path@ })
            &&& c[n + 1] == (crate::config::ConfigCheckView::PathExists {
                kind: "snapshot memory path"@,
                path: match cfg.snapshot.mem_backend {
                    Some(b) => path_text(b.backend_path),
                    None => path_text(cfg.snapshot.mem_file_path),
                },
            })
            &&& c[n + 2] == (crate::config::ConfigCheckView::PathExists {
                kind: "snapshot path"@,
                path: path_text(cfg.snapshot.snapshot_path),
            })
        }),
{
    let c = load_snapshot_checks_spec(cfg);
    let n = cfg.drives@.len() as int;
    assert forall|i: int| 0 <= i < n implies c[i] == (crate::config::ConfigCheckView::PathExists {
        kind: "drive path"@,
        path: path_text(#[trigger] cfg.drives@[i].path_on_host),
    }) by {
        assert(crate::drives::drive_views(cfg.drives@)[i] == cfg.drives@[i]@);
    }
}

/// The first root drive of a list is a root drive of it, and no drive
/// before it is one; when there is none, no drive of the list is a root
/// drive.
pub proof fn law_first_root_drive(ds: Seq<DriveView>)
    ensures
        match first_root_drive(ds) {
            Some(d) => exists|i: int|
                0 <= i < ds.len() && #[trigger] ds[i] == d && d.is_root_device == Some(true) && forall|j: int|
                    0 <= j < i ==> ds[j].is_root_device != Some(true),
            None => forall|j: int| 0 <= j < ds.len() ==> #[trigger] ds[j].is_root_device != Some(true),
        },
    decreases ds.len(),
{
    if ds.len() > 0 {
        law_first_root_drive(ds.drop_first());
        if ds[0].is_root_device != Some(true) {
            match first_root_drive(ds.drop_first()) {
                Some(d) => {
                    let i = choose|i: int|
                        0 <= i < ds.drop_first().len() && #[trigger] ds.drop_first()[i] == d
                            && d.is_root_device == Some(true) && forall|j: int|
                            0 <= j < i ==> ds.drop_first()[j].is_root_device != Some(true);
                    assert(ds[i + 1] == d);
                    assert forall|j: int| 0 <= j < i + 1 implies ds[j].is_root_device != Some(true) by {
                        if j > 0 {
                            assert(ds[j] == ds.drop_first()[j - 1]);
                        }
                    }
                },
                None => {
                    assert forall|j: int| 0 <= j < ds.len() implies #[trigger] ds[j].is_root_device != Some(true) by {
                        if j > 0 {
                            assert(ds[j] == ds.drop_first()[j - 1]);
                        }
                    }
                },
            }
        } else {
            assert(ds[0] == ds[0]);
        }
    }
}

/// With validation on, a boot checks, in order: the kernel image; the
/// initrd when one is set; the first root drive's file when there is a root
/// drive; and that the API socket does not exist. Nothing else is checked.
pub proof fn law_boot_checks_each(cfg: Config)
    requires
        !cfg.disable_validation,
    ensures
        ({
            let c = validation_checks_spec(cfg);
            let k: int = if cfg.initrd_path is Some { 1 } else { 0 };
            let r: int = if first_root_drive(crate::drives::drive_views(cfg.drives@)) is Some { 1 } else { 0 };
            &&& c.len() == 2 + k + r
            &&& c[0] == (crate::config::ConfigCheckView::PathExists {
                kind: "kernel image path"@,
                path: cfg.kernel_image_path@,
            })
            &&& (cfg.initrd_path matches Some(p) ==> c[1] == (crate::config::ConfigCheckView::PathExists {
                kind: "initrd image path"@,
                path: p@,
            }))
            &&& (first_root_drive(crate::drives::drive_views(cfg.drives@)) matches Some(d) ==> c[1 + k]
                == (crate::config::ConfigCheckView::PathExists {
                kind: "host drive path"@,
                path: match d.path_on_host {
                    Some(t) => t,
                    None => Seq::empty(),
                },
            }))
            &&& c[1 + k + r] == (crate::config::ConfigCheckView::SocketAbsent { path: cfg.socket_path@ })
        }),
{
}


/// Whether `flag` is followed by `value` somewhere among the first `end`
/// arguments of `a`.
#[verifier::opaque]
pub open spec fn has_flag_value(a: Seq<Seq<char>>, end: int, flag: Seq<char>, value: Seq<char>) -> bool {
    exists|i: int| 0 <= i && i + 1 < end && #[trigger] a[i] == flag && a[i + 1] == value
}

/// In `--cgroup arg` pairs, argument `j` sits at position `2j + 1`, right
/// after its flag.
proof fn lemma_cgroup_pair_at(args: Seq<Seq<char>>, j: int)
    requires
        0 <= j < args.len(),
    ensures
        cgroup_pairs(args).len() == 2 * args.len(),
        cgroup_pairs(args)[2 * j] == "--cgroup"@,
        cgroup_pairs(args)[2 * j + 1] == args[j],
    decreases args.len(),
{
    let d = args.drop_last();
    assert(cgroup_pairs(args) == cgroup_pairs(d) + seq!["--cgroup"@, args.last()]);
    if j < d.len() {
        lemma_cgroup_pair_at(d, j);
        assert(d[j] == args[j]);
    } else {
        lemma_cgroup_len(d);
    }
}

proof fn lemma_cgroup_len(args: Seq<Seq<char>>)
    ensures
        cgroup_pairs(args).len() == 2 * args.len(),
    decreases args.len(),
{
    if args.len() > 0 {
        lemma_cgroup_len(args.drop_last());
    }
}

/// The fixed first arguments of the jailer's command line.
pub open spec fn jailer_fixed_args(b: JailerCommandBuilderView) -> Seq<Seq<char>> {
    seq![
        "--id"@,
        b.id,
        "--uid"@,
        signed_decimal(b.uid as int),
        "--gid"@,
        signed_decimal(b.gid as int),
        "--exec-file"@,
        b.exec_file,
    ]
}

/// How many arguments at the end of the jailer's command line are handed on
/// to Firecracker, the `--` separator included.
pub open spec fn firecracker_tail_len(b: JailerCommandBuilderView) -> int {
    if b.firecracker_args.len() > 0 {
        b.firecracker_args.len() + 1int
    } else {
        0int
    }
}

spec fn settings_part(b: JailerCommandBuilderView) -> Seq<Seq<char>> {
    flag_pair("--cgroup-version"@, b.cgroup_version) + flag_pair("--parent-cgroup"@, b.parent_cgroup)
        + flag_pair("--chroot-base-dir"@, b.chroot_base_dir) + flag_pair("--netns"@, b.netns) + (if b.daemonize {
        seq!["--daemonize"@]
    } else {
        Seq::empty()
    })
}

spec fn fc_part(b: JailerCommandBuilderView) -> Seq<Seq<char>> {
    if b.firecracker_args.len() > 0 {
        seq!["--"@] + b.firecracker_args
    } else {
        Seq::empty()
    }
}

proof fn lemma_jailer_args_split(b: JailerCommandBuilderView, cpuset: Seq<char>)
    ensures
        jailer_args(b, cpuset) == jailer_fixed_args(b) + numa_args(b.node, cpuset) + cgroup_pairs(
            b.cgroup_args,
        ) + settings_part(b) + fc_part(b),
        fc_part(b).len() == firecracker_tail_len(b),
{
    assert(jailer_args(b, cpuset) =~= jailer_fixed_args(b) + numa_args(b.node, cpuset) + cgroup_pairs(
        b.cgroup_args,
    ) + settings_part(b) + fc_part(b));
}

#[verifier::spinoff_prover]
proof fn lemma_settings_part(b: JailerCommandBuilderView, x: Seq<Seq<char>>, end: int)
    requires
        x.len() + settings_part(b).len() <= end,
    ensures
        ({
            let a = x + settings_part(b) + fc_part(b);
            &&& b.cgroup_version matches Some(v) ==> has_flag_value(a, end, "--cgroup-version"@, v)
            &&& b.parent_cgroup matches Some(p) ==> has_flag_value(a, end, "--parent-cgroup"@, p)
            &&& b.chroot_base_dir matches Some(d) ==> has_flag_value(a, end, "--chroot-base-dir"@, d)
            &&& b.netns matches Some(ns) ==> has_flag_value(a, end, "--netns"@, ns)
            &&& b.daemonize ==> exists|i: int| 0 <= i < end && #[trigger] a[i] == "--daemonize"@
        }),
{
    reveal(has_flag_value);
    let q3 = flag_pair("--cgroup-version"@, b.cgroup_version);
    let q4 = flag_pair("--parent-cgroup"@, b.parent_cgroup);
    let q5 = flag_pair("--chroot-base-dir"@, b.chroot_base_dir);
    let q6 = flag_pair("--netns"@, b.netns);
    let q7: Seq<Seq<char>> = if b.daemonize { seq!["--daemonize"@] } else { Seq::empty() };
    let st = settings_part(b);
    let f = fc_part(b);
    let xs = x + st;
    let a = xs + f;
    assert(st == q3 + q4 + q5 + q6 + q7);
    let l = x.len() as int;
    let k3 = 0int;
    let k4 = q3.len() as int;
    let k5 = k4 + q4.len();
    let k6 = k5 + q5.len();
    let k7 = k6 + q6.len();
    assert forall|k: int| 0 <= k < st.len() implies a[l + k] == st[k] by {
        assert(xs[l + k] == st[k]);
    }
    if let Some(v) = b.cgroup_version {
        assert(st[k3] == q3[0] && st[k3 + 1] == q3[1]);
        assert(a[l + k3] == "--cgroup-version"@ && a[l + k3 + 1] == v);
    }
    if let Some(p) = b.parent_cgroup {
        assert((q3 + q4)[k4] == q4[0] && (q3 + q4)[k4 + 1] == q4[1]);
        assert(st[k4] == q4[0] && st[k4 + 1] == q4[1]);
        assert(a[l + k4] == "--parent-cgroup"@ && a[l + k4 + 1] == p);
    }
    if let Some(d) = b.chroot_base_dir {
        assert((q3 + q4 + q5)[k5] == q5[0] && (q3 + q4 + q5)[k5 + 1] == q5[1]);
        assert(st[k5] == q5[0] && st[k5 + 1] == q5[1]);
        assert(a[l + k5] == "--chroot-base-dir"@ && a[l + k5 + 1] == d);
    }
    if let Some(ns) = b.netns {
        assert((q3 + q4 + q5 + q6)[k6] == q6[0] && (q3 + q4 + q5 + q6)[k6 + 1] == q6[1]);
        assert(st[k6] == q6[0] && st[k6 + 1] == q6[1]);
        assert(a[l + k6] == "--netns"@ && a[l + k6 + 1] == ns);
    }
    if b.daemonize {
        assert(st[k7] == q7[0]);
        assert(a[l + k7] == "--daemonize"@);
    }
}

proof fn lemma_cgroup_part(args: Seq<Seq<char>>, x: Seq<Seq<char>>, s: Seq<Seq<char>>, f: Seq<Seq<char>>, end: int)
    requires
        x.len() + cgroup_pairs(args).len() <= end,
    ensures
        forall|j: int| 0 <= j < args.len() ==> has_flag_value(x + cgroup_pairs(args) + s + f, end, "--cgroup"@, #[trigger] args[j]),
{
    reveal(has_flag_value);
    let c = cgroup_pairs(args);
    let xc = x + c;
    let a = xc + s + f;
    assert forall|j: int| 0 <= j < args.len() implies has_flag_value(a, end, "--cgroup"@, #[trigger] args[j]) by {
        lemma_cgroup_pair_at(args, j);
        let i = x.len() + 2 * j;
        assert(xc[i] == c[2 * j] && xc[i + 1] == c[2 * j + 1]);
        assert((xc + s)[i] == xc[i] && (xc + s)[i + 1] == xc[i + 1]);
        assert(a[i] == "--cgroup"@ && a[i + 1] == args[j]);
    }
}

/// The jailer's command line for a builder: first `--id`, `--uid`, `--gid`
/// and `--exec-file` with their values; then every jailer setting that is
/// set, as its flag followed by its value (the NUMA node's cgroups when its
/// CPU list is known, each extra cgroup argument, the cgroup version, the
/// parent cgroup, the chroot base directory, the network namespace), and
/// `--daemonize` when asked for; last, when Firecracker has arguments, `--`
/// followed by exactly those arguments.
#[verifier::spinoff_prover]
pub proof fn law_jailer_args_carry_settings(b: JailerCommandBuilderView, cpuset: Seq<char>)
    ensures
        ({
            let a = jailer_args(b, cpuset);
            let n = a.len() - firecracker_tail_len(b);
            &&& 8 <= n <= a.len()
            &&& a.take(8) == jailer_fixed_args(b)
            &&& b.firecracker_args.len() > 0 ==> a.skip(n) == seq!["--"@] + b.firecracker_args
            &&& cpuset.len() > 0 ==> has_flag_value(a, n, "--cgroup"@, "cpuset.mems="@ + signed_decimal(b.node as int))
                && has_flag_value(a, n, "--cgroup"@, "cpuset.cpus="@ + cpuset)
            &&& forall|j: int| 0 <= j < b.cgroup_args.len() ==> has_flag_value(a, n, "--cgroup"@, #[trigger] b.cgroup_args[j])
            &&& b.cgroup_version matches Some(v) ==> has_flag_value(a, n, "--cgroup-version"@, v)
            &&& b.parent_cgroup matches Some(p) ==> has_flag_value(a, n, "--parent-cgroup"@, p)
            &&& b.chroot_base_dir matches Some(d) ==> has_flag_value(a, n, "--chroot-base-dir"@, d)
            &&& b.netns matches Some(ns) ==> has_flag_value(a, n, "--netns"@, ns)
            &&& b.daemonize ==> exists|i: int| 0 <= i < n && #[trigger] a[i] == "--daemonize"@
        }),
{
    let a = jailer_args(b, cpuset);
    lemma_jailer_args_split(b, cpuset);
    let p0 = jailer_fixed_args(b);
    let p1 = numa_args(b.node, cpuset);
    let p2 = cgroup_pairs(b.cgroup_args);
    let s = settings_part(b);
    let f = fc_part(b);
    let n = a.len() - firecracker_tail_len(b);
    assert(n == (p0 + p1 + p2 + s).len());
    assert(a.take(8) =~= p0);
    if b.firecracker_args.len() > 0 {
        assert(a.skip(n) =~= f);
    }
    if cpuset.len() > 0 {
        reveal(has_flag_value);
        assert(a =~= p0 + p1 + (p2 + s + f));
        assert(a[8] == p1[0] && a[9] == p1[1] && a[10] == p1[2] && a[11] == p1[3]);
        assert(has_flag_value(a, n, "--cgroup"@, "cpuset.mems="@ + signed_decimal(b.node as int)));
        assert(has_flag_value(a, n, "--cgroup"@, "cpuset.cpus="@ + cpuset));
    }
    lemma_cgroup_len(b.cgroup_args);
    lemma_cgroup_part(b.cgroup_args, p0 + p1, s, f, n);
    lemma_settings_part(b, p0 + p1 + p2, n);
}


/// Whether an optional text is set and not empty.
pub open spec fn set_nonempty(t: Option<Seq<char>>) -> bool {
    match t {
        Some(x) => x.len() > 0,
        None => false,
    }
}

/// Firecracker started without the jailer gets `--api-sock <socket>` and
/// `--id <vmid>`, then `--no-seccomp` when seccomp is off, or
/// `--seccomp-filter <filter>` when it is on with a nonempty filter, and
/// nothing more when it is on without one.
pub proof fn law_firecracker_args(vmid: Seq<char>, socket_path: Seq<char>, enabled: bool, filter: Option<Seq<char>>)
    ensures
        ({
            let a = firecracker_args_spec(vmid, socket_path, enabled, filter);
            &&& a.len() >= 4
            &&& a[0] == "--api-sock"@ && a[1] == socket_path && a[2] == "--id"@ && a[3] == vmid
            &&& !enabled ==> a.len() == 5 && a[4] == "--no-seccomp"@
            &&& (enabled && set_nonempty(filter)) ==> a.len() == 6 && a[4] == "--seccomp-filter"@
                && a[5] == filter->0
            &&& (enabled && !set_nonempty(filter)) ==> a.len() == 4
        }),
{
}

/// One poll of a starting VMM fails as exited exactly when the process
/// exited; it is ready exactly when the process runs and the API answers;
/// it times out exactly when neither holds and the deadline has passed; and
/// it polls again otherwise.
pub proof fn law_readiness_step(exited: bool, reachable: bool, deadline_passed: bool)
    ensures
        (readiness_step_spec(exited, reachable, deadline_passed) == ReadinessStep::Exited) == exited,
        (readiness_step_spec(exited, reachable, deadline_passed) == ReadinessStep::Ready) == (!exited && reachable),
        (readiness_step_spec(exited, reachable, deadline_passed) == ReadinessStep::TimedOut) == (!exited && !reachable
            && deadline_passed),
        (readiness_step_spec(exited, reachable, deadline_passed) == ReadinessStep::Retry) == (!exited && !reachable
            && !deadline_passed),
{
}

/// An output goes to its FIFO whenever a nonempty FIFO path is set, to its
/// file only when no such FIFO path is set and a nonempty file path is, and
/// nowhere otherwise.
pub proof fn law_log_output(fifo_path: Option<Seq<char>>, file_path: Option<Seq<char>>)
    ensures
        set_nonempty(fifo_path) ==> log_output_spec(fifo_path, file_path) == LogOutputView::Fifo(
            fifo_path->0,
        ),
        !set_nonempty(fifo_path) && set_nonempty(file_path)
            ==> log_output_spec(fifo_path, file_path) == LogOutputView::File(file_path->0),
        !set_nonempty(fifo_path) && !set_nonempty(file_path)
            ==> log_output_spec(fifo_path, file_path) == LogOutputView::Nothing,
{
}

/// A microVM's default network namespace is `/var/run/netns/<vmid>`.
pub proof fn law_default_net_ns_path(vmid: Seq<char>)
    ensures
        net_ns_path_spec(vmid) == "/var/run/netns"@ + seq!['/'] + vmid,
{
}

/// An IPv4 address is written as its four octets in decimal, most
/// significant first, separated by dots.
pub proof fn law_dotted_quad_octets(a: u32)
    ensures
        dotted_quad(a) == decimal((a / 0x100_0000) as nat) + seq!['.'] + decimal(((a / 0x1_0000) % 0x100) as nat)
            + seq!['.'] + decimal(((a / 0x100) % 0x100) as nat) + seq!['.'] + decimal((a % 0x100) as nat),
{
    assert((a >> 24u32) & 0xffu32 == a / 0x100_0000) by (bit_vector);
    assert((a >> 16u32) & 0xffu32 == (a / 0x1_0000) % 0x100) by (bit_vector);
    assert((a >> 8u32) & 0xffu32 == (a / 0x100) % 0x100) by (bit_vector);
    assert((a >> 0u32) & 0xffu32 == a % 0x100) by (bit_vector);
}

/// The mask of a network whose prefix is `p` bits long has exactly its `p`
/// most significant bits set.
pub proof fn law_netmask_bits(p: u8, i: u32)
    requires
        p <= 32,
        i < 32,
    ensures
        ((netmask_bits(p) >> i) & 1u32 == 1u32) == (i + p >= 32),
{
    if p == 0 {
        assert(((0u32 >> i) & 1u32 == 1u32) == false) by (bit_vector);
    } else {
        let sh = (32 - p) as u32;
        assert(1 <= p <= 32 && sh == 32 - p ==> sh < 32);
        assert(sh < 32 && i < 32 ==> ((((0xffff_ffffu32 << sh) >> i) & 1u32 == 1u32) == (i >= sh))) by (bit_vector);
    }
}


/// On any turn of the FIFO copy: an exit request ends the copy and a failed
/// read aborts it, both leaving the state as it was; bytes read are always
/// written and restart the wait for more; and before any byte was seen, an
/// empty read never ends the copy.
pub proof fn law_fifo_turn(s: FifoCapture, event: FifoEvent, now_ms: u64)
    ensures
        event is ExitRequested ==> capture_step(s, event, now_ms) == (s, FifoAction::Finish),
        event is ReadFailed ==> capture_step(s, event, now_ms) == (s, FifoAction::Abort),
        event is Data ==> capture_step(s, event, now_ms) == (
            FifoCapture { seen_data: true, idle_since_ms: None },
            FifoAction::Write,
        ),
        event is NoData && !s.seen_data ==> capture_step(s, event, now_ms).1 == FifoAction::Wait,
{
}

/// Once data has been seen, the copy ends on an empty read only after the
/// FIFO has stayed empty for the idle limit, 100 ms, counted from the first
/// empty read; a read that gives data in between starts the count again.
pub proof fn law_fifo_idle_window(s: FifoCapture, t0: u64, t1: u64, t2: u64)
    requires
        s.seen_data,
        s.idle_since_ms is None,
        t0 <= t1 <= t2,
    ensures
        ({
            let (s1, a1) = capture_step(s, FifoEvent::NoData, t0);
            let (s2, a2) = capture_step(s1, FifoEvent::NoData, t1);
            let (s3, a3) = capture_step(s2, FifoEvent::Data, t1);
            let (s4, a4) = capture_step(s3, FifoEvent::NoData, t2);
            &&& a1 == FifoAction::Wait
            &&& (a2 == FifoAction::Finish) == (t1 - t0 >= 100)
            &&& a2 == FifoAction::Finish || a2 == FifoAction::Wait
            &&& a4 == FifoAction::Wait
        }),
{
}

/// A request's head starts with its request line, `<method> <path>
/// HTTP/1.1`, declares the body's length in decimal, and ends with the blank
/// line that closes the head.
#[verifier::spinoff_prover]
pub proof fn law_request_head(method: Seq<char>, path: Seq<char>, body_len: nat)
    ensures
        ({
            let h = request_head_spec(method, path, body_len);
            let line = method + seq![' '] + path + " HTTP/1.1\r\n"@;
            let cl = "Content-Length: "@ + decimal(body_len) + "\r\n"@;
            &&& h.take(line.len() as int) == line
            &&& h.len() >= 4 && h.skip(h.len() - 4) == seq!['\r', '\n', '\r', '\n']
            &&& exists|i: int| 0 <= i && i + cl.len() <= h.len() && #[trigger] h.subrange(i, i + cl.len()) == cl
        }),
{
    reveal_strlit(" ");
    reveal_strlit(" HTTP/1.1\r\n");
    reveal_strlit(" HTTP/1.1\r\nHost: localhost\r\nUser-Agent: firecracker-rs-sdk\r\nAccept: application/json\r\nConnection: close\r\nContent-Length: ");
    reveal_strlit("Content-Length: ");
    reveal_strlit("\r\n");
    reveal_strlit("Content-Type: application/json\r\n");
    let fixed = " HTTP/1.1\r\nHost: localhost\r\nUser-Agent: firecracker-rs-sdk\r\nAccept: application/json\r\nConnection: close\r\nContent-Length: "@;
    let ct: Seq<char> = if body_len > 0 { "Content-Type: application/json\r\n"@ } else { Seq::empty() };
    let h = request_head_spec(method, path, body_len);
    let pre = method + " "@ + path;
    let line = method + seq![' '] + path + " HTTP/1.1\r\n"@;
    assert(h == pre + fixed + decimal(body_len) + "\r\n"@ + ct + "\r\n"@);
    assert(" "@ =~= seq![' ']);
    assert(fixed.take(11) =~= " HTTP/1.1\r\n"@);
    assert(h.take(line.len() as int) =~= line);
    let cl = "Content-Length: "@ + decimal(body_len) + "\r\n"@;
    let i = (pre + fixed).len() - 16;
    assert(fixed.skip(fixed.len() - 16) =~= "Content-Length: "@);
    assert(h.subrange(i, i + cl.len()) =~= cl);
    if body_len > 0 {
        assert(h.skip(h.len() - 4) =~= seq!['\r', '\n', '\r', '\n']);
    } else {
        assert(h.skip(h.len() - 4) =~= seq!['\r', '\n', '\r', '\n']);
    }
}


/// The fields of the kernel `ip=` parameter for an address configuration:
/// the guest's address, no server, the gateway, the netmask, no host name,
/// the interface name (empty when unset), `off` for autoconfiguration, the
/// first two name servers (empty where missing), and an empty last field.
pub open spec fn ip_boot_fields(c: CniIpConfig, if_name: Option<Seq<char>>, nameservers: Seq<Seq<char>>) -> Seq<
    Seq<char>,
> {
    seq![
        dotted_quad(c.address@.addr),
        Seq::empty(),
        dotted_quad(c.gateway),
        dotted_quad(netmask_bits(c.address@.prefix_len)),
        Seq::empty(),
        match if_name {
            Some(n) => n,
            None => Seq::empty(),
        },
        seq!['o', 'f', 'f'],
        if nameservers.len() > 0 { nameservers[0] } else { Seq::empty() },
        if nameservers.len() > 1 { nameservers[1] } else { Seq::empty() },
        Seq::empty(),
    ]
}

/// The kernel `ip=` parameter is its ten fields joined by colons, and is
/// empty when the guest has no static address.
#[verifier::spinoff_prover]
#[verifier::rlimit(40)]
pub proof fn law_ip_boot_param_fields(ip: Option<CniIpConfig>, if_name: Option<Seq<char>>, nameservers: Seq<Seq<char>>)
    ensures
        ip is None ==> ip_boot_param_spec(ip, if_name, nameservers) == Seq::<char>::empty(),
        ip matches Some(c) ==> ip_boot_param_spec(ip, if_name, nameservers) == join_with(
            ip_boot_fields(c, if_name, nameservers),
            seq![':'],
        ),
{
    if let Some(c) = ip {
        let f = ip_boot_fields(c, if_name, nameservers);
        let sep = seq![':'];
        reveal_with_fuel(join_with, 11);
        assert(join_with(f.take(1), sep) == f[0]);
        assert(f.take(2).drop_last() =~= f.take(1));
        assert(f.take(3).drop_last() =~= f.take(2));
        assert(f.take(4).drop_last() =~= f.take(3));
        assert(f.take(5).drop_last() =~= f.take(4));
        assert(f.take(6).drop_last() =~= f.take(5));
        assert(f.take(7).drop_last() =~= f.take(6));
        assert(f.take(8).drop_last() =~= f.take(7));
        assert(f.take(9).drop_last() =~= f.take(8));
        assert(f.take(10).drop_last() =~= f.take(9));
        assert(f.take(10) =~= f);
        assert(ip_boot_param_spec(ip, if_name, nameservers) =~= join_with(f, sep));
    }
}


/// Each drive that has a backing file is linked into the chroot under its
/// file name and then pointed at that link.
#[verifier::spinoff_prover]
proof fn lemma_drive_link_at(rootfs: Seq<char>, drives: Seq<Option<Seq<char>>>, i: int)
    requires
        0 <= i < drives.len(),
        set_nonempty(drives[i]),
    ensures
        ({
            let st = drive_link_steps(rootfs, drives);
            let p = drives[i]->0;
            let name = file_name_or(p, "drive"@);
            exists|k: int|
                0 <= k && k + 1 < st.len() && #[trigger] st[k] == (LinkStepView::HardLink {
                    source: p,
                    destination: join_path(rootfs, name),
                }) && st[k + 1] == (LinkStepView::SetDrivePath { index: i as usize, path: name })
        }),
    decreases drives.len(),
{
    reveal_strlit("drive");
    let d = drives.drop_last();
    let st = drive_link_steps(rootfs, drives);
    let p = drives[i]->0;
    let name = file_name_or(p, "drive"@);
    if i < d.len() {
        lemma_drive_link_at(rootfs, d, i);
        assert(d[i] == drives[i]);
        let sd = drive_link_steps(rootfs, d);
        let k = choose|k: int|
            0 <= k && k + 1 < sd.len() && #[trigger] sd[k] == (LinkStepView::HardLink {
                source: p,
                destination: join_path(rootfs, name),
            }) && sd[k + 1] == (LinkStepView::SetDrivePath { index: i as usize, path: name });
        assert(st[k] == sd[k] && st[k + 1] == sd[k + 1]);
    } else {
        let sd = drive_link_steps(rootfs, d);
        let k = sd.len() as int;
        assert(st[k] == (LinkStepView::HardLink { source: p, destination: join_path(rootfs, name) }));
        assert(st[k + 1] == (LinkStepView::SetDrivePath { index: i as usize, path: name }));
    }
}

/// Linking a guest's files into a chroot: the kernel image is linked first,
/// under the name the guest will boot it by, and the guest is pointed at
/// that name; a set initrd is linked under its file name and the guest
/// pointed at it; every drive with a backing file is linked and pointed at
/// its link; a set log or metrics FIFO is linked, handed to the jailed user
/// and group, and used under its file name.
#[verifier::spinoff_prover]
pub proof fn law_link_steps_cover_files(
    rootfs: Seq<char>,
    kernel_name: Seq<char>,
    kernel_path: Seq<char>,
    initrd: Option<Seq<char>>,
    drives: Seq<Option<Seq<char>>>,
    log_fifo: Option<Seq<char>>,
    metrics_fifo: Option<Seq<char>>,
    uid: u32,
    gid: u32,
)
    ensures
        ({
            let st = link_steps(rootfs, kernel_name, kernel_path, initrd, drives, log_fifo, metrics_fifo, uid, gid);
            &&& st.len() > 0
            &&& st[0] == (LinkStepView::HardLink { source: kernel_path, destination: join_path(rootfs, kernel_name) })
            &&& exists|k: int| 0 <= k < st.len() && #[trigger] st[k] == LinkStepView::SetKernelImagePath(kernel_name)
            &&& set_nonempty(initrd) ==> (exists|k: int| 0 <= k < st.len() && #[trigger] st[k] == (LinkStepView::HardLink {
                source: initrd->0,
                destination: join_path(rootfs, file_name_or(initrd->0, "initrd"@)),
            })) && (exists|k: int| 0 <= k < st.len() && #[trigger] st[k] == LinkStepView::SetInitrdPath(
                file_name_or(initrd->0, "initrd"@),
            ))
            &&& forall|i: int| 0 <= i < drives.len() && set_nonempty(#[trigger] drives[i]) ==> exists|k: int|
                0 <= k && k + 1 < st.len() && #[trigger] st[k] == (LinkStepView::HardLink {
                    source: drives[i]->0,
                    destination: join_path(rootfs, file_name_or(drives[i]->0, "drive"@)),
                }) && st[k + 1] == (LinkStepView::SetDrivePath {
                    index: i as usize,
                    path: file_name_or(drives[i]->0, "drive"@),
                })
            &&& set_nonempty(log_fifo) ==> {
                let name = file_name_or(log_fifo->0, "fifo"@);
                exists|k: int| 0 <= k && k + 2 < st.len() && #[trigger] st[k] == (LinkStepView::HardLink {
                    source: log_fifo->0,
                    destination: join_path(rootfs, name),
                }) && st[k + 1] == (LinkStepView::Chown { path: join_path(rootfs, name), uid, gid }) && st[k + 2]
                    == LinkStepView::SetLogFifo(name)
            }
            &&& set_nonempty(metrics_fifo) ==> {
                let name = file_name_or(metrics_fifo->0, "fifo"@);
                exists|k: int| 0 <= k && k + 2 < st.len() && #[trigger] st[k] == (LinkStepView::HardLink {
                    source: metrics_fifo->0,
                    destination: join_path(rootfs, name),
                }) && st[k + 1] == (LinkStepView::Chown { path: join_path(rootfs, name), uid, gid }) && st[k + 2]
                    == LinkStepView::SetMetricsFifo(name)
            }
        }),
{
    reveal_strlit("initrd");
    reveal_strlit("drive");
    reveal_strlit("fifo");
    let st = link_steps(rootfs, kernel_name, kernel_path, initrd, drives, log_fifo, metrics_fifo, uid, gid);
    let q1 = seq![LinkStepView::HardLink { source: kernel_path, destination: join_path(rootfs, kernel_name) }];
    let q2 = crate::jailer::initrd_link_steps(rootfs, initrd);
    let q3 = drive_link_steps(rootfs, drives);
    let q4 = seq![LinkStepView::SetKernelImagePath(kernel_name)];
    let q5: Seq<LinkStepView> = match crate::jailer::nonempty_path(initrd) {
        Some(p) => seq![LinkStepView::SetInitrdPath(file_name_or(p, "initrd"@))],
        None => Seq::empty(),
    };
    let q6 = fifo_link_steps(rootfs, log_fifo, uid, gid, true);
    let q7 = fifo_link_steps(rootfs, metrics_fifo, uid, gid, false);
    let a1 = q1;
    let a2 = a1 + q2;
    let a3 = a2 + q3;
    let a4 = a3 + q4;
    let a5 = a4 + q5;
    let a6 = a5 + q6;
    assert(st == a6 + q7);
    // Every index of an earlier part keeps its step in the whole plan.
    assert forall|k: int| 0 <= k < a6.len() implies st[k] == a6[k] by {}
    assert forall|k: int| 0 <= k < a5.len() implies st[k] == a5[k] by {
        assert(a6[k] == a5[k]);
    }
    assert forall|k: int| 0 <= k < a4.len() implies st[k] == a4[k] by {
        assert(a5[k] == a4[k]);
        assert(a6[k] == a5[k]);
    }
    assert forall|k: int| 0 <= k < a3.len() implies st[k] == a3[k] by {
        assert(a4[k] == a3[k]);
        assert(a5[k] == a4[k]);
        assert(a6[k] == a5[k]);
    }
    assert forall|k: int| 0 <= k < a2.len() implies st[k] == a2[k] by {
        assert(a3[k] == a2[k]);
        assert(a4[k] == a3[k]);
        assert(a5[k] == a4[k]);
        assert(a6[k] == a5[k]);
    }
    assert(st[0] == a2[0] && a2[0] == q1[0]);
    assert(st[a3.len() as int] == a4[a3.len() as int] && a4[a3.len() as int] == q4[0]);
    if set_nonempty(initrd) {
        assert(st[1] == a2[1] && a2[1] == q2[0]);
        assert(st[a4.len() as int] == a5[a4.len() as int] && a5[a4.len() as int] == q5[0]);
    }
    assert forall|i: int| 0 <= i < drives.len() && set_nonempty(#[trigger] drives[i]) implies exists|k: int|
        0 <= k && k + 1 < st.len() && #[trigger] st[k] == (LinkStepView::HardLink {
            source: drives[i]->0,
            destination: join_path(rootfs, file_name_or(drives[i]->0, "drive"@)),
        }) && st[k + 1] == (LinkStepView::SetDrivePath {
            index: i as usize,
            path: file_name_or(drives[i]->0, "drive"@),
        }) by {
        lemma_drive_link_at(rootfs, drives, i);
        let p = drives[i]->0;
        let name = file_name_or(p, "drive"@);
        let k = choose|k: int|
            0 <= k && k + 1 < q3.len() && #[trigger] q3[k] == (LinkStepView::HardLink {
                source: p,
                destination: join_path(rootfs, name),
            }) && q3[k + 1] == (LinkStepView::SetDrivePath { index: i as usize, path: name });
        let o = a2.len() as int;
        assert(a3[o + k] == q3[k] && a3[o + k + 1] == q3[k + 1]);
        assert(st[o + k] == a3[o + k] && st[o + k + 1] == a3[o + k + 1]);
    }
    if set_nonempty(log_fifo) {
        let o = a5.len() as int;
        assert(a6[o] == q6[0] && a6[o + 1] == q6[1] && a6[o + 2] == q6[2]);
        assert(st[o] == a6[o] && st[o + 1] == a6[o + 1] && st[o + 2] == a6[o + 2]);
    }
    if set_nonempty(metrics_fifo) {
        let o = a6.len() as int;
        assert(st[o] == q7[0] && st[o + 1] == q7[1] && st[o + 2] == q7[2]);
    }
}


/// Whether a path component can be joined without doubling or dropping a
/// separator: it is not empty and neither starts nor ends with `/`.
pub open spec fn plain_component(c: Seq<char>) -> bool {
    c.len() > 0 && c[0] != '/' && c.last() != '/'
}

/// A jail's root is `<base>/<exec file name>/<id>/root`, where the base is
/// `/srv/jailer` unless the configuration chooses another.
pub proof fn law_jail_rootfs_layout(chroot_base: Option<Seq<char>>, exec_file: Seq<char>, id: Seq<char>)
    requires
        plain_component(file_name_or(exec_file, "firecracker"@)),
        plain_component(id),
        chroot_base matches Some(b) ==> b.len() > 0 && b.last() != '/',
    ensures
        rootfs_spec(chroot_base, exec_file, id) == (match chroot_base {
            Some(b) => b,
            None => "/srv/jailer"@,
        }) + seq!['/'] + file_name_or(exec_file, "firecracker"@) + seq!['/'] + id + seq!['/'] + "root"@,
{
    reveal_strlit("/srv/jailer");
    reveal_strlit("root");
    let base = match chroot_base {
        Some(b) => b,
        None => "/srv/jailer"@,
    };
    let name = file_name_or(exec_file, "firecracker"@);
    assert(base.len() > 0 && base.last() != '/');
    let j1 = join_path(base, name);
    assert(j1 == base + seq!['/'] + name);
    assert(j1.last() == name.last());
    let j2 = join_path(j1, id);
    assert(j2 == j1 + seq!['/'] + id);
    assert(j2.last() == id.last());
    let root = "root"@;
    assert(root.len() > 0 && root[0] != '/');
    assert(join_path(j2, root) == j2 + seq!['/'] + root);
}


/// How one kernel argument is written: `key=value`, or the bare key for a
/// flag.
pub open spec fn kernel_word(k: Seq<char>, v: Option<Seq<char>>) -> Seq<char> {
    match v {
        Some(x) => k + seq!['='] + x,
        None => k,
    }
}

/// A kernel command line with one argument is that argument's word; with
/// two, their words in key order with one space between them.
pub proof fn law_kernel_args_rendering(k1: Seq<char>, v1: Option<Seq<char>>, k2: Seq<char>, v2: Option<Seq<char>>)
    requires
        lex_lt(k1, k2),
    ensures
        render_map(Map::<Seq<char>, Option<Seq<char>>>::empty().insert(k1, v1)) == kernel_word(k1, v1),
        render_map(Map::<Seq<char>, Option<Seq<char>>>::empty().insert(k2, v2).insert(k1, v1)) == kernel_word(k1, v1)
            + seq![' '] + kernel_word(k2, v2),
{
    let one = seq![(k1, v1)];
    assert(crate::kernelargs::sorted_args(one));
    assert(one.drop_last() =~= Seq::<(Seq<char>, Option<Seq<char>>)>::empty());
    assert(map_of(Seq::<(Seq<char>, Option<Seq<char>>)>::empty()) == Map::<Seq<char>, Option<Seq<char>>>::empty());
    assert(map_of(one) == map_of(one.drop_last()).insert(k1, v1));
    assert(map_of(one) =~= Map::<Seq<char>, Option<Seq<char>>>::empty().insert(k1, v1));
    lemma_render_map(one);
    assert(one.map_values(|a: (Seq<char>, Option<Seq<char>>)| crate::kernelargs::word_of_arg(a)) =~= seq![
        kernel_word(k1, v1),
    ]);
    let two = seq![(k1, v1), (k2, v2)];
    assert(crate::kernelargs::sorted_args(two));
    assert(two.drop_last() =~= one);
    crate::kernelargs::lemma_lex_irreflexive(k1);
    assert(k1 != k2);
    assert(map_of(two) == map_of(two.drop_last()).insert(k2, v2));
    assert(map_of(two) =~= Map::<Seq<char>, Option<Seq<char>>>::empty().insert(k2, v2).insert(k1, v1));
    lemma_render_map(two);
    let ws = two.map_values(|a: (Seq<char>, Option<Seq<char>>)| crate::kernelargs::word_of_arg(a));
    assert(ws =~= seq![kernel_word(k1, v1), kernel_word(k2, v2)]);
    assert(ws.drop_first() =~= seq![kernel_word(k2, v2)]);
    assert(crate::kernelargs::join_words(ws) == ws[0] + seq![' '] + crate::kernelargs::join_words(ws.drop_first()));
}


/// With validation on, a machine's size is accepted exactly when it has at
/// least one vCPU and at least one MiB of memory (an unset value counts as
/// zero); a missing vCPU count is reported before missing memory.
pub proof fn law_machine_size_check(cfg: Config)
    requires
        !cfg.disable_validation,
    ensures
        machine_cfg_check_spec(cfg) is Ok <==> (cfg.machine_cfg.vcpu_count matches Some(v) && v >= 1)
            && (cfg.machine_cfg.mem_size_mib matches Some(m) && m >= 1),
        !(cfg.machine_cfg.vcpu_count matches Some(v) && v >= 1) ==> machine_cfg_check_spec(cfg) == Err::<
            (),
            crate::error::ErrorView,
        >(crate::error::ErrorView::InvalidConfig("machine needs a nonzero VcpuCount"@)),
        (cfg.machine_cfg.vcpu_count matches Some(v) && v >= 1) && !(cfg.machine_cfg.mem_size_mib matches Some(m)
            && m >= 1) ==> machine_cfg_check_spec(cfg) == Err::<(), crate::error::ErrorView>(
            crate::error::ErrorView::InvalidConfig("machine needs a nonzero amount of memory"@),
        ),
{
}

/// A jailer configuration is accepted exactly when the machine has a root
/// drive and the configuration names a chroot strategy, an exec file, an
/// id, a group, a user and a NUMA node; no configuration at all is never
/// refused. A missing root drive is reported before anything else.
pub proof fn law_jailer_config_accepted<S>(j: JailerConfig<S>, root_drive_present: bool)
    ensures
        jailer_config_error::<S>(None, root_drive_present) is None,
        jailer_config_error(Some(j), root_drive_present) is None <==> root_drive_present && j.chroot_strategy is Some
            && j.exec_file@.len() > 0 && j.id@.len() > 0 && j.gid is Some && j.uid is Some && j.numa_node is Some,
        !root_drive_present ==> jailer_config_error(Some(j), root_drive_present) == Some(
            "A root drive must be present in the drive list"@,
        ),
{
}


/// Whether address `c` is assigned to the interface named `name` in
/// `sandbox`, by its index among `ifaces`.
pub open spec fn assigned_to(ifaces: Seq<CniInterfaceView>, c: CniIpConfig, name: Seq<char>, sandbox: Seq<char>) -> bool {
    match c.interface {
        Some(k) => k < ifaces.len() && ifaces[k as int].name == name && ifaces[k as int].sandbox == sandbox,
        None => false,
    }
}

/// The address a guest gets from a CNI result is one of the result's
/// addresses, assigned to the guest's own interface (by its index among the
/// result's interfaces), and the only address so assigned; the guest's
/// interface lies in the sandbox named after the microVM, and its tap, of
/// the same name, outside it.
pub proof fn law_plan_address(result: CniResult, container_id: Seq<char>)
    ensures
        plan_spec(result, container_id) matches Ok((vm, tap, ip)) ==> {
            let ifaces = iface_views(result.interfaces@);
            &&& vm.sandbox == container_id
            &&& tap.name == vm.name && tap.sandbox != container_id
            &&& result.ips@.contains(ip)
            &&& assigned_to(ifaces, ip, vm.name, vm.sandbox)
            &&& forall|j: int|
                0 <= j < result.ips@.len() && assigned_to(ifaces, #[trigger] result.ips@[j], vm.name, vm.sandbox) ==> result.ips@[j] == ip
        },
{
    broadcast use vstd::seq_lib::group_filter_ensures;

    law_tap_pair_shape(iface_views(result.interfaces@), container_id);
    if let Ok((vm, tap, ip)) = plan_spec(result, container_id) {
        let ifaces = iface_views(result.interfaces@);
        let p = crate::cni::internal::ip_on(ifaces, vm.name, vm.sandbox);
        let ips = result.ips@.filter(p);
        assert(vm_tap_pair_spec(ifaces, container_id) == Ok::<(CniInterfaceView, CniInterfaceView), crate::cni::internal::CniUtilErrorView>((vm, tap)));
        assert(ips.len() == 1 && ip == ips[0]);
        assert(p(ips[0]));
        assert(ips.contains(ip));
        result.ips@.lemma_filter_contains_rev(p, ip);
        assert(result.ips@.contains(ip));
        assert(assigned_to(ifaces, ip, vm.name, vm.sandbox));
        assert forall|j: int|
            0 <= j < result.ips@.len() && assigned_to(ifaces, #[trigger] result.ips@[j], vm.name, vm.sandbox) implies result.ips@[j] == ip by {
            assert(p(result.ips@[j]));
            result.ips@.lemma_filter_contains(p, j);
        }
    }
}


/// A response whose status is not a success is an API error that carries
/// the status and the body as text; a response whose status line cannot be
/// read is an API error with status 0 that says why.
pub proof fn law_error_response(head: Seq<u8>, body: Seq<u8>)
    ensures
        status_spec(head) matches Ok(s) && !(200 <= s < 300) ==> response_spec(head, body) == Err::<
            Seq<u8>,
            crate::error::ErrorView,
        >(crate::error::ErrorView::Api { status: status_spec(head)->Ok_0, body: lossy_utf8(body) }),
        status_spec(head) matches Err(m) ==> response_spec(head, body) == Err::<Seq<u8>, crate::error::ErrorView>(
            crate::error::ErrorView::Api { status: 0, body: m },
        ),
{
}

/// The status of a response is the number written as the second word of
/// its first line (`HTTP/1.1 <status> <reason>`), read in decimal and at
/// most 65535.
pub proof fn law_status_is_second_word(head: Seq<u8>)
    ensures
        status_spec(head) matches Ok(v) ==> {
            let ls = lines(lossy_utf8(head));
            &&& ls.len() > 0
            &&& crate::kernelargs::split_ws(ls[0]).len() >= 2
            &&& crate::text::parse_unsigned(crate::kernelargs::split_ws(ls[0])[1], 65535) == Some(v as nat)
        },
{
}


/// The root drive is `root_drive`, backed by its path, the root device and
/// writable; the drive added `index`-th is named by `index` in decimal,
/// backed by its path, not the root device, and read-only as asked. Neither
/// has a partition UUID, rate limiter, cache type or I/O engine until an
/// option sets one.
pub proof fn law_drive_defaults(index: nat, path: Seq<char>, read_only: bool)
    ensures
        root_drive_spec(path).drive_id == Some("root_drive"@),
        root_drive_spec(path).path_on_host == Some(path),
        root_drive_spec(path).is_root_device == Some(true),
        root_drive_spec(path).is_read_only == Some(false),
        added_drive_spec(index, path, read_only).drive_id == Some(decimal(index)),
        added_drive_spec(index, path, read_only).path_on_host == Some(path),
        added_drive_spec(index, path, read_only).is_root_device == Some(false),
        added_drive_spec(index, path, read_only).is_read_only == Some(read_only),
        root_drive_spec(path).partuuid is None && root_drive_spec(path).rate_limiter is None
            && root_drive_spec(path).cache_type is None && root_drive_spec(path).io_engine is None,
        added_drive_spec(index, path, read_only).partuuid is None && added_drive_spec(index, path, read_only).rate_limiter
            is None && added_drive_spec(index, path, read_only).cache_type is None && added_drive_spec(
            index,
            path,
            read_only,
        ).io_engine is None,
{
}

/// Each drive option sets its own setting of the drive and leaves every
/// other setting as it was.
pub proof fn law_drive_option_effects(o: DriveOpt, d: DriveView)
    ensures
        ({
            let r = o.apply_spec(d);
            &&& r.path_on_host == d.path_on_host && r.is_root_device == d.is_root_device
            &&& (o matches DriveOpt::DriveId(id) ==> r == DriveView { drive_id: Some(id@), ..d })
            &&& (o matches DriveOpt::ReadOnly(f) ==> r == DriveView { is_read_only: Some(f), ..d })
            &&& (o matches DriveOpt::Partuuid(p) ==> r == DriveView { partuuid: Some(p@), ..d })
            &&& (o matches DriveOpt::RateLimiter(l) ==> r == DriveView { rate_limiter: Some(l), ..d })
            &&& (o matches DriveOpt::CacheType(c) ==> r == DriveView { cache_type: Some(c@), ..d })
            &&& (o matches DriveOpt::IoEngine(e) ==> r == DriveView { io_engine: Some(e@), ..d })
        }),
{
}


/// Whether a signal is `x`.
pub open spec fn is_signal(x: i32) -> spec_fn(i32) -> bool {
    |y: i32| y == x
}

/// How many times `x` occurs in `s`.
pub open spec fn occurrences(s: Seq<i32>, x: i32) -> nat {
    s.filter(is_signal(x)).len()
}

/// Registering a list of signals raises each signal's count by the number
/// of times the list names it, and leaves every other count as it was.
pub proof fn law_acquire_counts(m: Map<i32, nat>, signals: Seq<i32>, x: i32)
    ensures
        count_of(acquire_all(m, signals), x) == count_of(m, x) + occurrences(signals, x),
    decreases signals.len(),
{
    if signals.len() == 0 {
        reveal(Seq::filter);
    } else {
        let d = signals.drop_last();
        law_acquire_counts(m, d, x);
        assert(signals =~= d.push(signals.last()));
        lemma_filter_push(d, signals.last(), is_signal(x));
    }
}

/// Releasing a signal lowers its count by one, never below zero, and
/// leaves every other count as it was.
pub proof fn law_release_counts(m: Map<i32, nat>, signal: i32, x: i32)
    ensures
        x == signal ==> count_of(release_one(m, signal), x) == if count_of(m, x) > 0 {
            (count_of(m, x) - 1) as nat
        } else {
            0
        },
        x != signal ==> count_of(release_one(m, signal), x) == count_of(m, x),
{
}

/// The signals whose forwarding a registration starts are exactly those it
/// names that no earlier registration forwards.
pub proof fn law_newly_forwarded_members(m: Map<i32, nat>, signals: Seq<i32>, x: i32)
    ensures
        newly_forwarded(m, signals).contains(x) <==> count_of(m, x) == 0 && signals.contains(x),
    decreases signals.len(),
{
    if signals.len() > 0 {
        let d = signals.drop_last();
        let y = signals.last();
        law_newly_forwarded_members(m, d, x);
        law_acquire_counts(m, d, y);
        let rest = newly_forwarded(m, d);
        if occurrences(d, y) == 0 {
            assert(!d.contains(y)) by {
                if d.contains(y) {
                    let i = choose|i: int| 0 <= i < d.len() && d[i] == y;
                    d.lemma_filter_contains(is_signal(y), i);
                }
            }
        } else {
            assert(d.contains(y)) by {
                let f = d.filter(is_signal(y));
                assert(f.len() > 0);
                assert(f.contains(f[0]));
                d.lemma_filter_contains_rev(is_signal(y), f[0]);
                d.lemma_filter_pred(is_signal(y), 0);
            }
        }
        assert(signals.contains(x) <==> d.contains(x) || x == y) by {
            if signals.contains(x) {
                let i = choose|i: int| 0 <= i < signals.len() && signals[i] == x;
                if i < d.len() {
                    assert(d[i] == x);
                }
            }
            if d.contains(x) {
                let i = choose|i: int| 0 <= i < d.len() && d[i] == x;
                assert(signals[i] == x);
            }
            if x == y {
                assert(signals[signals.len() - 1] == x);
            }
        }
        let cond = count_of(acquire_all(m, d), y) == 0;
        assert(newly_forwarded(m, signals) == if cond { rest.push(y) } else { rest });
        if cond {
            assert(rest.push(y).contains(x) <==> rest.contains(x) || x == y) by {
                if rest.push(y).contains(x) {
                    let k = choose|k: int| 0 <= k < rest.push(y).len() && rest.push(y)[k] == x;
                    if k < rest.len() {
                        assert(rest[k] == x);
                    }
                }
                if rest.contains(x) {
                    let k = choose|k: int| 0 <= k < rest.len() && rest[k] == x;
                    assert(rest.push(y)[k] == x);
                }
                if x == y {
                    assert(rest.push(y)[rest.len() as int] == x);
                }
            }
        }
    }
}

/// A forwarded signal goes to exactly the processes whose registrations
/// name it.
pub proof fn law_forward_targets_members(registrations: Seq<(u32, Seq<i32>)>, signal: i32, pid: u32)
    ensures
        forward_targets_spec(registrations, signal).contains(pid) <==> exists|i: int|
            0 <= i < registrations.len() && (#[trigger] registrations[i]).0 == pid && registrations[i].1.contains(
                signal,
            ),
    decreases registrations.len(),
{
    if registrations.len() > 0 {
        let d = registrations.drop_last();
        law_forward_targets_members(d, signal, pid);
        let last = registrations.last();
        let rest = forward_targets_spec(d, signal);
        if exists|i: int| 0 <= i < registrations.len() && (#[trigger] registrations[i]).0 == pid
            && registrations[i].1.contains(signal) {
            let i = choose|i: int| 0 <= i < registrations.len() && (#[trigger] registrations[i]).0 == pid
                && registrations[i].1.contains(signal);
            if i < d.len() {
                assert(d[i] == registrations[i]);
                assert(rest.contains(pid));
                if last.1.contains(signal) {
                    assert(rest.push(last.0)[rest.push(last.0).len() - 1] == last.0);
                    let k = choose|k: int| 0 <= k < rest.len() && rest[k] == pid;
                    assert(rest.push(last.0)[k] == pid);
                }
            } else {
                assert(registrations[i] == last);
                assert(rest.push(last.0)[rest.len() as int] == pid);
            }
        }
        if forward_targets_spec(registrations, signal).contains(pid) {
            if last.1.contains(signal) && rest.push(last.0).contains(pid) && !rest.contains(pid) {
                let k = choose|k: int| 0 <= k < rest.push(last.0).len() && rest.push(last.0)[k] == pid;
                assert(k == rest.len());
                assert(registrations[registrations.len() - 1] == last);
            } else if rest.contains(pid) {
                let i = choose|i: int| 0 <= i < d.len() && (#[trigger] d[i]).0 == pid && d[i].1.contains(signal);
                assert(registrations[i] == d[i]);
            } else {
                let k = choose|k: int| 0 <= k < rest.push(last.0).len() && rest.push(last.0)[k] == pid;
                assert(k == rest.len());
                assert(registrations[registrations.len() - 1] == last);
            }
        }
    }
}


/// How many handlers of `s` are named `name`.
pub open spec fn name_count<F>(s: Seq<Handler<F>>, name: Seq<char>) -> nat
    decreases s.len(),
{
    if s.len() == 0 {
        0
    } else {
        name_count(s.drop_last(), name) + if s.last().name@ == name { 1nat } else { 0nat }
    }
}

/// Swapping a handler in keeps every handler's name in its place.
pub proof fn law_swap_keeps_names<F: Clone>(s: Seq<Handler<F>>, t: Seq<Handler<F>>, h: Handler<F>)
    requires
        swapped(s, t, h),
    ensures
        names(t) == names(s),
{
    assert forall|i: int| 0 <= i < s.len() implies names(t)[i] == names(s)[i] by {
        if s[i].name@ == h.name@ {
            assert(is_copy_of(h, t[i]));
        } else {
            assert(t[i] == s[i]);
        }
    }
    assert(names(t) =~= names(s));
}

/// Inserting a handler after every handler named `after` adds one handler
/// per such handler, keeps the others, and leaves the list as it was when
/// none has that name.
pub proof fn law_inserted_after_count<F: Clone>(s: Seq<Handler<F>>, t: Seq<Handler<F>>, after: Seq<char>, h: Handler<F>)
    requires
        inserted_after(s, t, after, h),
    ensures
        t.len() == s.len() + name_count(s, after),
        name_count(s, after) == 0 ==> t == s,
    decreases s.len(),
{
    if s.len() > 0 {
        let d = s.drop_last();
        if s.last().name@ == after {
            let u = t.subrange(0, t.len() - 2);
            law_inserted_after_count(d, u, after, h);
        } else {
            let u = t.drop_last();
            law_inserted_after_count(d, u, after, h);
            if name_count(s, after) == 0 {
                assert(t =~= u.push(t.last()));
                assert(s =~= d.push(s.last()));
            }
        }
    } else {
        assert(t =~= s);
    }
}


/// Each error reads as its kind followed by what it carries: `invalid
/// configuration: <message>`, `process error: <message>`, `api error
/// (status <status>): <body>`, and `machine already started`.
pub proof fn law_error_messages(m: Seq<char>, status: u16)
    ensures
        message_spec(ErrorView::InvalidConfig(m)) == "invalid configuration: "@ + m,
        message_spec(ErrorView::Process(m)) == "process error: "@ + m,
        message_spec(ErrorView::Api { status, body: m }) == "api error (status "@ + decimal(status as nat) + "): "@
            + m,
        message_spec(ErrorView::AlreadyStarted) == "machine already started"@,
{
}

/// The vendor read from `/proc/cpuinfo` is the one declared by the first
/// line that declares a vendor; when no line does, there is none.
pub proof fn law_first_vendor_line(lines: Seq<Seq<char>>)
    ensures
        match first_vendor_id(lines) {
            Some(v) => exists|i: int|
                0 <= i < lines.len() && #[trigger] vendor_id_of_line_spec(lines[i]) == Some(v) && forall|j: int|
                    0 <= j < i ==> vendor_id_of_line_spec(lines[j]) is None,
            None => forall|j: int| 0 <= j < lines.len() ==> #[trigger] vendor_id_of_line_spec(lines[j]) is None,
        },
    decreases lines.len(),
{
    if lines.len() > 0 {
        let t = lines.drop_first();
        law_first_vendor_line(t);
        match vendor_id_of_line_spec(lines[0]) {
            Some(v) => {
                assert(vendor_id_of_line_spec(lines[0]) == Some(v));
            },
            None => {
                match first_vendor_id(t) {
                    Some(v) => {
                        let i = choose|i: int|
                            0 <= i < t.len() && #[trigger] vendor_id_of_line_spec(t[i]) == Some(v) && forall|j: int|
                                0 <= j < i ==> vendor_id_of_line_spec(t[j]) is None;
                        assert(lines[i + 1] == t[i]);
                        assert(vendor_id_of_line_spec(lines[i + 1]) == Some(v));
                        assert forall|j: int| 0 <= j < i + 1 implies vendor_id_of_line_spec(lines[j]) is None by {
                            if j > 0 {
                                assert(lines[j] == t[j - 1]);
                            }
                        }
                    },
                    None => {
                        assert forall|j: int| 0 <= j < lines.len() implies #[trigger] vendor_id_of_line_spec(lines[j])
                            is None by {
                            if j > 0 {
                                assert(lines[j] == t[j - 1]);
                            }
                        }
                    },
                }
            },
        }
    }
}


/// A `/proc/cpuinfo` line `name: value` declares the vendor `value`, with
/// surrounding whitespace removed, exactly when its name, with surrounding
/// whitespace removed, is `vendor_id`; the first colon separates the two.
pub proof fn law_vendor_line(name: Seq<char>, value: Seq<char>)
    requires
        forall|i: int| 0 <= i < name.len() ==> #[trigger] name[i] != ':',
    ensures
        vendor_id_of_line_spec(name + seq![':'] + value) == if crate::text::trim(name) == "vendor_id"@ {
            Some(crate::text::trim(value))
        } else {
            None::<Seq<char>>
        },
{
    let line = name + seq![':'] + value;
    assert forall|i: int| 0 <= i < name.len() implies #[trigger] line[i] != ':' by {
        assert(line[i] == name[i]);
    }
    crate::http::lemma_first_pos_at_pub(line, ':', name.len());
    assert(line.take(name.len() as int) =~= name);
    assert(line.skip(name.len() as int + 1) =~= value);
}


/// Writing a number in decimal and reading the digits back gives the number;
/// every character written is a digit `0`–`9`.
pub proof fn law_decimal_reads_back(n: nat)
    ensures
        crate::text::digits_value(decimal(n)) == n,
        forall|i: int| 0 <= i < decimal(n).len() ==> 48 <= (#[trigger] decimal(n)[i]) as int <= 57,
    decreases n,
{
    let d = n % 10;
    assert(crate::text::digit_char(d) as int == 48 + d);
    if n >= 10 {
        law_decimal_reads_back(n / 10);
        let pre = decimal(n / 10);
        assert(decimal(n) == pre.push(crate::text::digit_char(d)));
        assert(decimal(n).drop_last() =~= pre);
        assert((n / 10) * 10 + n % 10 == n) by (nonlinear_arith);
        assert(decimal(n).last() == crate::text::digit_char(d));
        assert(crate::text::digits_value(decimal(n)) == crate::text::digits_value(pre) * 10 + ((
        crate::text::digit_char(d) as int) - 48) as nat);
        assert forall|i: int| 0 <= i < decimal(n).len() implies 48 <= (#[trigger] decimal(n)[i]) as int <= 57 by {
            if i < pre.len() {
                assert(decimal(n)[i] == pre[i]);
            }
        }
    } else {
        assert(decimal(n) == seq![crate::text::digit_char(n)]);
        assert(decimal(n).drop_last() =~= Seq::<char>::empty());
        assert(crate::text::digits_value(decimal(n)) == crate::text::digits_value(decimal(n).drop_last()) * 10 + ((
        crate::text::digit_char(d) as int) - 48) as nat);
    }
}


/// A client option changes only what it names: a request timeout changes
/// the request timeout, an init timeout the init timeout, and a transport
/// the socket path and request timeout, which it brings with it; of two
/// options on the same setting, the later one wins.
pub proof fn law_client_option_effects(c: ClientView, opt: ClientOpt, opts: Seq<ClientOpt>)
    ensures
        opt matches ClientOpt::RequestTimeout(t) ==> apply_client_opt(c, opt) == (ClientView {
            socket_path: c.socket_path,
            request_timeout: t,
            init_timeout: c.init_timeout,
        }),
        opt matches ClientOpt::InitTimeout(t) ==> apply_client_opt(c, opt) == (ClientView {
            socket_path: c.socket_path,
            request_timeout: c.request_timeout,
            init_timeout: t,
        }),
        opt matches ClientOpt::UnixSocketTransport(tr) ==> apply_client_opt(c, opt) == (ClientView {
            socket_path: tr.spec_socket_path(),
            request_timeout: tr.spec_request_timeout(),
            init_timeout: c.init_timeout,
        }),
        opt matches ClientOpt::RequestTimeout(t) ==> apply_client_opts(c, opts.push(opt)).request_timeout == t,
        opt matches ClientOpt::InitTimeout(t) ==> apply_client_opts(c, opts.push(opt)).init_timeout == t,
{
    assert(opts.push(opt).drop_last() =~= opts);
}

/// The balloon option sets the statistics polling interval and nothing
/// else; the last such option wins.
pub proof fn law_balloon_option_effects(b: Balloon, opts: Seq<BalloonOpt>, secs: i64)
    ensures
        ({
            let r = apply_balloon_opts(opts.push(BalloonOpt::StatsPollingIntervals(secs)), b);
            &&& r.stats_polling_intervals == secs
            &&& r.amount_mib == b.amount_mib
            &&& r.deflate_on_oom == b.deflate_on_oom
        }),
{
    assert(opts.push(BalloonOpt::StatsPollingIntervals(secs)).drop_last() =~= opts);
    lemma_balloon_opts_keep(b, opts);
}

proof fn lemma_balloon_opts_keep(b: Balloon, opts: Seq<BalloonOpt>)
    ensures
        apply_balloon_opts(opts, b).amount_mib == b.amount_mib,
        apply_balloon_opts(opts, b).deflate_on_oom == b.deflate_on_oom,
    decreases opts.len(),
{
    if opts.len() > 0 {
        lemma_balloon_opts_keep(b, opts.drop_last());
    }
}

} // verus!
