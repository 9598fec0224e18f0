//! Named, ordered lists of initialization steps.
//!
//! A handler pairs a name with the step that it runs; the step itself is an
//! opaque value of type `F` that this module only moves or clones.

use vstd::prelude::*;

use crate::config::MMDSVersion;
use crate::models::{MMDS_VERSION_V1, MMDS_VERSION_V2};
use crate::text::str_eq;

verus! {

pub const START_VMM_HANDLER_NAME: &'static str = "fcinit.StartVMM";
pub const BOOTSTRAP_LOGGING_HANDLER_NAME: &'static str = "fcinit.BootstrapLogging";
pub const CREATE_LOG_FILES_HANDLER_NAME: &'static str = "fcinit.CreateLogFilesHandler";
pub const CREATE_MACHINE_HANDLER_NAME: &'static str = "fcinit.CreateMachine";
pub const CREATE_BOOT_SOURCE_HANDLER_NAME: &'static str = "fcinit.CreateBootSource";
pub const ATTACH_DRIVES_HANDLER_NAME: &'static str = "fcinit.AttachDrives";
pub const CREATE_NETWORK_INTERFACES_HANDLER_NAME: &'static str = "fcinit.CreateNetworkInterfaces";
pub const ADD_VSOCKS_HANDLER_NAME: &'static str = "fcinit.AddVsocks";
pub const NEW_SET_METADATA_HANDLER_NAME: &'static str = "fcinit.SetMetadata";
pub const CONFIG_MMDS_HANDLER_NAME: &'static str = "fcinit.ConfigMmds";
pub const LINK_FILES_TO_ROOTFS_HANDLER_NAME: &'static str = "fcinit.LinkFilesToRootFS";
pub const SETUP_NETWORK_HANDLER_NAME: &'static str = "fcinit.SetupNetwork";
pub const SETUP_KERNEL_ARGS_HANDLER_NAME: &'static str = "fcinit.SetupKernelArgs";
pub const LOAD_SNAPSHOT_HANDLER_NAME: &'static str = "fcinit.LoadSnapshot";
pub const VALIDATE_CFG_HANDLER_NAME: &'static str = "validate.Cfg";
pub const VALIDATE_JAILER_CFG_HANDLER_NAME: &'static str = "validate.JailerCfg";
pub const VALIDATE_NETWORK_CFG_HANDLER_NAME: &'static str = "validate.NetworkCfg";
pub const VALIDATE_LOAD_SNAPSHOT_CFG_HANDLER_NAME: &'static str = "validate.LoadSnapshotCfg";

/// A named step.
#[derive(Debug)]
pub struct Handler<F> {
    pub name: String,
    pub func: F,
}

impl<F> Handler<F> {
    /// A handler with the given name and step.
    pub fn new(name: String, func: F) -> (r: Self)
        ensures
            r.name == name,
            r.func == func,
    {
        Handler { name, func }
    }
}

/// `x` is a copy of `h`: the same name and a clone of its step.
pub open spec fn is_copy_of<F: Clone>(h: Handler<F>, x: Handler<F>) -> bool {
    x.name@ == h.name@ && cloned::<F>(h.func, x.func)
}

/// A copy of a handler.
pub fn copy_handler<F: Clone>(h: &Handler<F>) -> (r: Handler<F>)
    ensures
        is_copy_of(*h, r),
{
    Handler { name: h.name.clone(), func: h.func.clone() }
}

impl<F: Clone> Clone for Handler<F> {
    fn clone(&self) -> (r: Self)
        ensures
            is_copy_of(*self, r),
    {
        copy_handler(self)
    }
}

/// The names of a handler sequence, in order.
pub open spec fn names<F>(s: Seq<Handler<F>>) -> Seq<Seq<char>> {
    s.map_values(|h: Handler<F>| h.name@)
}

/// The handlers of `s` whose name is not `name`, in order.
pub open spec fn without_name<F>(s: Seq<Handler<F>>, name: Seq<char>) -> Seq<Handler<F>>
    decreases s.len(),
{
    if s.len() == 0 {
        Seq::empty()
    } else {
        let rest = without_name(s.drop_last(), name);
        if s.last().name@ == name {
            rest
        } else {
            rest.push(s.last())
        }
    }
}

/// `t` is `s` with a copy of `h` inserted right after every handler named
/// `after`.
pub open spec fn inserted_after<F: Clone>(
    s: Seq<Handler<F>>,
    t: Seq<Handler<F>>,
    after: Seq<char>,
    h: Handler<F>,
) -> bool
    decreases s.len(),
{
    if s.len() == 0 {
        t.len() == 0
    } else if s.last().name@ == after {
        &&& t.len() >= 2
        &&& is_copy_of(h, t.last())
        &&& t[t.len() - 2] == s.last()
        &&& inserted_after(s.drop_last(), t.subrange(0, t.len() - 2), after, h)
    } else {
        &&& t.len() >= 1
        &&& t.last() == s.last()
        &&& inserted_after(s.drop_last(), t.drop_last(), after, h)
    }
}

/// `t` is `s` with every handler named like `h` replaced by a copy of `h`.
pub open spec fn swapped<F: Clone>(s: Seq<Handler<F>>, t: Seq<Handler<F>>, h: Handler<F>) -> bool {
    &&& t.len() == s.len()
    &&& forall|i: int|
        0 <= i < s.len() ==> if (#[trigger] s[i]).name@ == h.name@ {
            is_copy_of(h, t[i])
        } else {
            t[i] == s[i]
        }
}

/// An ordered list of handlers.
#[derive(Debug)]
pub struct HandlerList<F> {
    pub list: Vec<Handler<F>>,
}

impl<F: Clone> Clone for HandlerList<F> {
    fn clone(&self) -> (r: Self)
        ensures
            r.list@.len() == self.list@.len(),
            forall|i: int| 0 <= i < self.list@.len() ==> is_copy_of(self.list@[i], #[trigger] r.list@[i]),
    {
        let mut list: Vec<Handler<F>> = Vec::new();
        let mut i: usize = 0;
        while i < self.list.len()
            invariant
                i <= self.list.len(),
                list@.len() == i,
                forall|j: int| 0 <= j < i ==> is_copy_of(self.list@[j], #[trigger] list@[j]),
            decreases self.list.len() - i,
        {
            list.push(copy_handler(&self.list[i]));
            i = i + 1;
        }
        HandlerList { list }
    }
}

impl<F> HandlerList<F> {
    /// An empty list.
    pub fn new() -> (r: Self)
        ensures
            r.list@ == Seq::<Handler<F>>::empty(),
    {
        HandlerList { list: Vec::new() }
    }

    /// The handlers placed before the current ones, in their order.
    pub fn prepend(self, handlers: Vec<Handler<F>>) -> (r: Self)
        ensures
            r.list@ == handlers@ + self.list@,
    {
        let mut front = handlers;
        let mut back = self.list;
        front.append(&mut back);
        HandlerList { list: front }
    }

    /// The handlers placed after the current ones, in their order.
    pub fn append(self, handlers: Vec<Handler<F>>) -> (r: Self)
        ensures
            r.list@ == self.list@ + handlers@,
    {
        let mut list = self.list;
        let mut more = handlers;
        list.append(&mut more);
        HandlerList { list }
    }

    /// Number of handlers.
    pub fn len(&self) -> (r: usize)
        ensures
            r == self.list@.len(),
    {
        self.list.len()
    }

    /// Whether some handler is named `name`.
    pub fn has(&self, name: &str) -> (r: bool)
        ensures
            r == names(self.list@).contains(name@),
    {
        let mut i: usize = 0;
        while i < self.list.len()
            invariant
                i <= self.list.len(),
                forall|j: int| 0 <= j < i ==> (#[trigger] self.list@[j]).name@ != name@,
            decreases self.list.len() - i,
        {
            if str_eq(self.list[i].name.as_str(), name) {
                assert(names(self.list@)[i as int] == name@);
                return true;
            }
            i = i + 1;
        }
        assert(!names(self.list@).contains(name@)) by {
            if names(self.list@).contains(name@) {
                let j = choose|j: int| 0 <= j < names(self.list@).len() && names(self.list@)[j] == name@;
                assert(self.list@[j].name@ == name@);
            }
        }
        false
    }

    /// Removes every handler named `name`, keeping the others in order.
    pub fn remove(self, name: &str) -> (r: Self)
        ensures
            r.list@ == without_name(self.list@, name@),
    {
        let ghost all = self.list@;
        let mut rest = self.list;
        let mut kept: Vec<Handler<F>> = Vec::new();
        let n = rest.len();
        let mut i: usize = 0;
        while rest.len() > 0
            invariant
                rest.len() + i == n,
                all.len() == n,
                forall|j: int| 0 <= j < rest.len() ==> #[trigger] rest@[j] == all[i + j],
                kept@ == without_name(all.take(i as int), name@),
            decreases rest.len(),
        {
            let ghost prev = rest@;
            let h = rest.remove(0);
            assert(h == all[i as int]);
            assert forall|j: int| 0 <= j < rest.len() implies #[trigger] rest@[j] == all[i + 1 + j] by {
                assert(rest@[j] == prev[j + 1]);
            }
            assert(all.take(i as int + 1).drop_last() =~= all.take(i as int));
            assert(all.take(i as int + 1).last() == h);
            if !str_eq(h.name.as_str(), name) {
                kept.push(h);
            }
            i = i + 1;
        }
        assert(all.take(n as int) =~= all);
        HandlerList { list: kept }
    }

    /// Removes every handler.
    pub fn clear(self) -> (r: Self)
        ensures
            r.list@ == Seq::<Handler<F>>::empty(),
    {
        HandlerList { list: Vec::new() }
    }
}

impl<F: Clone> HandlerList<F> {
    /// Inserts a copy of `handler` right after every handler named
    /// `after_name`; the list is unchanged when no handler has that name.
    pub fn append_after(self, after_name: &str, handler: Handler<F>) -> (r: Self)
        ensures
            inserted_after(self.list@, r.list@, after_name@, handler),
            !names(self.list@).contains(after_name@) ==> r.list@ == self.list@,
    {
        let ghost all = self.list@;
        let mut rest = self.list;
        let mut out: Vec<Handler<F>> = Vec::new();
        let n = rest.len();
        let mut i: usize = 0;
        while rest.len() > 0
            invariant
                rest.len() + i == n,
                all.len() == n,
                forall|j: int| 0 <= j < rest.len() ==> #[trigger] rest@[j] == all[i + j],
                inserted_after(all.take(i as int), out@, after_name@, handler),
                (forall|j: int| 0 <= j < i ==> (#[trigger] all[j]).name@ != after_name@) ==> out@ == all.take(i as int),
            decreases rest.len(),
        {
            let ghost prev = rest@;
            let ghost before = out@;
            let h = rest.remove(0);
            assert(h == all[i as int]);
            assert forall|j: int| 0 <= j < rest.len() implies #[trigger] rest@[j] == all[i + 1 + j] by {
                assert(rest@[j] == prev[j + 1]);
            }
            let is_after = str_eq(h.name.as_str(), after_name);
            out.push(h);
            if is_after {
                out.push(copy_handler(&handler));
                assert(out@.subrange(0, out@.len() - 2) =~= before);
            } else {
                assert(out@.drop_last() =~= before);
            }
            assert(all.take(i as int + 1).drop_last() =~= all.take(i as int));
            assert(all.take(i as int + 1).last() == all[i as int]);
            assert(all.take(i as int + 1) =~= all.take(i as int).push(all[i as int]));
            i = i + 1;
        }
        assert(all.take(n as int) =~= all);
        proof {
            if !names(all).contains(after_name@) {
                assert forall|j: int| 0 <= j < n implies (#[trigger] all[j]).name@ != after_name@ by {
                    assert(names(all)[j] == all[j].name@);
                }
            }
        }
        HandlerList { list: out }
    }

    /// Replaces every handler named like `handler` by a copy of it.
    pub fn swap(self, handler: Handler<F>) -> (r: Self)
        ensures
            swapped(self.list@, r.list@, handler),
    {
        let ghost all = self.list@;
        let mut rest = self.list;
        let mut out: Vec<Handler<F>> = Vec::new();
        let n = rest.len();
        let mut i: usize = 0;
        while rest.len() > 0
            invariant
                rest.len() + i == n,
                all.len() == n,
                out.len() == i,
                forall|j: int| 0 <= j < rest.len() ==> #[trigger] rest@[j] == all[i + j],
                forall|j: int|
                    0 <= j < i ==> if (#[trigger] all[j]).name@ == handler.name@ {
                        is_copy_of(handler, out@[j])
                    } else {
                        out@[j] == all[j]
                    },
            decreases rest.len(),
        {
            let ghost prev = rest@;
            let h = rest.remove(0);
            assert(h == all[i as int]);
            assert forall|j: int| 0 <= j < rest.len() implies #[trigger] rest@[j] == all[i + 1 + j] by {
                assert(rest@[j] == prev[j + 1]);
            }
            if str_eq(h.name.as_str(), handler.name.as_str()) {
                out.push(copy_handler(&handler));
            } else {
                out.push(h);
            }
            i = i + 1;
        }
        HandlerList { list: out }
    }

    /// Replaces the handlers named like `handler` by copies of it when there
    /// are any, and appends it otherwise.
    pub fn swappend(self, handler: Handler<F>) -> (r: Self)
        ensures
            names(self.list@).contains(handler.name@) ==> swapped(self.list@, r.list@, handler),
            !names(self.list@).contains(handler.name@) ==> r.list@ == self.list@.push(handler),
    {
        if self.has(handler.name.as_str()) {
            self.swap(handler)
        } else {
            let ghost old_list = self.list@;
            let mut v: Vec<Handler<F>> = Vec::new();
            v.push(handler);
            let r = self.append(v);
            assert(r.list@ =~= old_list.push(handler));
            r
        }
    }
}

/// The validation handlers and the initialization handlers of a machine.
#[derive(Debug)]
pub struct Handlers<F> {
    pub validation: HandlerList<F>,
    pub fc_init: HandlerList<F>,
}

impl<F: Clone> Clone for Handlers<F> {
    fn clone(&self) -> (r: Self)
        ensures
            r.validation.list@.len() == self.validation.list@.len(),
            r.fc_init.list@.len() == self.fc_init.list@.len(),
            forall|i: int|
                0 <= i < self.validation.list@.len() ==> is_copy_of(
                    self.validation.list@[i],
                    #[trigger] r.validation.list@[i],
                ),
            forall|i: int|
                0 <= i < self.fc_init.list@.len() ==> is_copy_of(self.fc_init.list@[i], #[trigger] r.fc_init.list@[i]),
    {
        Handlers { validation: self.validation.clone(), fc_init: self.fc_init.clone() }
    }
}

/// Names of the initialization handlers that a machine runs by default, in
/// the order they run.
pub fn default_fc_init_handler_names() -> (r: Vec<&'static str>)
    ensures
        r@.map_values(|s: &str| s@) == seq![
            SETUP_NETWORK_HANDLER_NAME@,
            SETUP_KERNEL_ARGS_HANDLER_NAME@,
            START_VMM_HANDLER_NAME@,
            CREATE_LOG_FILES_HANDLER_NAME@,
            BOOTSTRAP_LOGGING_HANDLER_NAME@,
            CREATE_MACHINE_HANDLER_NAME@,
            CREATE_BOOT_SOURCE_HANDLER_NAME@,
            ATTACH_DRIVES_HANDLER_NAME@,
            CREATE_NETWORK_INTERFACES_HANDLER_NAME@,
            ADD_VSOCKS_HANDLER_NAME@,
            CONFIG_MMDS_HANDLER_NAME@,
        ],
{
    let mut r: Vec<&'static str> = Vec::new();
    r.push(SETUP_NETWORK_HANDLER_NAME);
    r.push(SETUP_KERNEL_ARGS_HANDLER_NAME);
    r.push(START_VMM_HANDLER_NAME);
    r.push(CREATE_LOG_FILES_HANDLER_NAME);
    r.push(BOOTSTRAP_LOGGING_HANDLER_NAME);
    r.push(CREATE_MACHINE_HANDLER_NAME);
    r.push(CREATE_BOOT_SOURCE_HANDLER_NAME);
    r.push(ATTACH_DRIVES_HANDLER_NAME);
    r.push(CREATE_NETWORK_INTERFACES_HANDLER_NAME);
    r.push(ADD_VSOCKS_HANDLER_NAME);
    r.push(CONFIG_MMDS_HANDLER_NAME);
    assert(r@.map_values(|s: &str| s@) =~= seq![
        SETUP_NETWORK_HANDLER_NAME@,
        SETUP_KERNEL_ARGS_HANDLER_NAME@,
        START_VMM_HANDLER_NAME@,
        CREATE_LOG_FILES_HANDLER_NAME@,
        BOOTSTRAP_LOGGING_HANDLER_NAME@,
        CREATE_MACHINE_HANDLER_NAME@,
        CREATE_BOOT_SOURCE_HANDLER_NAME@,
        ATTACH_DRIVES_HANDLER_NAME@,
        CREATE_NETWORK_INTERFACES_HANDLER_NAME@,
        ADD_VSOCKS_HANDLER_NAME@,
        CONFIG_MMDS_HANDLER_NAME@,
    ]);
    r
}

/// Names of the validation handlers that a machine runs by default, in the
/// order they run: the network configuration check.
pub open spec fn default_validation_names() -> Seq<Seq<char>> {
    seq![VALIDATE_NETWORK_CFG_HANDLER_NAME@]
}

/// Names of the validation handlers that a machine runs by default (see
/// [`default_validation_names`]).
pub fn default_validation_handler_names() -> (r: Vec<&'static str>)
    ensures
        r@.map_values(|s: &str| s@) == default_validation_names(),
{
    let mut r: Vec<&'static str> = Vec::new();
    r.push(VALIDATE_NETWORK_CFG_HANDLER_NAME);
    assert(r@.map_values(|s: &str| s@) =~= default_validation_names());
    r
}

/// The initialization handlers that a snapshot load skips.
pub open spec fn without_snapshot_skipped<F>(s: Seq<Handler<F>>) -> Seq<Handler<F>> {
    without_name(
        without_name(
            without_name(
                without_name(
                    without_name(
                        without_name(s, SETUP_KERNEL_ARGS_HANDLER_NAME@),
                        CREATE_MACHINE_HANDLER_NAME@,
                    ),
                    CREATE_BOOT_SOURCE_HANDLER_NAME@,
                ),
                ATTACH_DRIVES_HANDLER_NAME@,
            ),
            CREATE_NETWORK_INTERFACES_HANDLER_NAME@,
        ),
        CONFIG_MMDS_HANDLER_NAME@,
    )
}

/// Turns the handlers of a booting machine into those of a machine that
/// loads a snapshot: the configuration steps that a snapshot replaces are
/// dropped, the configuration validation gives way to `load_validation` and
/// the snapshot is loaded by `load` after the remaining initialization.
pub fn adapt_handlers_for_snapshot<F>(
    handlers: Handlers<F>,
    load_validation: Handler<F>,
    load: Handler<F>,
) -> (r: Handlers<F>)
    ensures
        r.fc_init.list@ == without_name(
            without_snapshot_skipped(handlers.fc_init.list@),
            LOAD_SNAPSHOT_HANDLER_NAME@,
        ).push(load),
        r.validation.list@ == without_name(
            without_name(handlers.validation.list@, VALIDATE_CFG_HANDLER_NAME@),
            VALIDATE_LOAD_SNAPSHOT_CFG_HANDLER_NAME@,
        ).push(load_validation),
{
    let fc_init = handlers.fc_init
        .remove(SETUP_KERNEL_ARGS_HANDLER_NAME)
        .remove(CREATE_MACHINE_HANDLER_NAME)
        .remove(CREATE_BOOT_SOURCE_HANDLER_NAME)
        .remove(ATTACH_DRIVES_HANDLER_NAME)
        .remove(CREATE_NETWORK_INTERFACES_HANDLER_NAME)
        .remove(CONFIG_MMDS_HANDLER_NAME);
    let mut tail_v: Vec<Handler<F>> = Vec::new();
    tail_v.push(load_validation);
    let validation = handlers.validation
        .remove(VALIDATE_CFG_HANDLER_NAME)
        .remove(VALIDATE_LOAD_SNAPSHOT_CFG_HANDLER_NAME)
        .append(tail_v);
    let mut tail_f: Vec<Handler<F>> = Vec::new();
    tail_f.push(load);
    let fc_init = fc_init.remove(LOAD_SNAPSHOT_HANDLER_NAME).append(tail_f);
    proof {
        assert(fc_init.list@ =~= without_name(
            without_snapshot_skipped(handlers.fc_init.list@),
            LOAD_SNAPSHOT_HANDLER_NAME@,
        ).push(load));
        assert(validation.list@ =~= without_name(
            without_name(handlers.validation.list@, VALIDATE_CFG_HANDLER_NAME@),
            VALIDATE_LOAD_SNAPSHOT_CFG_HANDLER_NAME@,
        ).push(load_validation));
    }
    Handlers { validation, fc_init }
}

/// The handlers of a new machine: the defaults, with `config_validation`
/// (the jailer's or the plain configuration check) appended to the
/// validation handlers, then adapted for a snapshot load when
/// `snapshot_handlers` gives the load validation and load handlers.
pub fn machine_handlers<F>(
    defaults: Handlers<F>,
    config_validation: Handler<F>,
    snapshot_handlers: Option<(Handler<F>, Handler<F>)>,
) -> (r: Handlers<F>)
    ensures
        match snapshot_handlers {
            None => r.validation.list@ == defaults.validation.list@.push(config_validation)
                && r.fc_init.list@ == defaults.fc_init.list@,
            Some((load_validation, load)) => r.validation.list@ == without_name(
                without_name(
                    defaults.validation.list@.push(config_validation),
                    VALIDATE_CFG_HANDLER_NAME@,
                ),
                VALIDATE_LOAD_SNAPSHOT_CFG_HANDLER_NAME@,
            ).push(load_validation) && r.fc_init.list@ == without_name(
                without_snapshot_skipped(defaults.fc_init.list@),
                LOAD_SNAPSHOT_HANDLER_NAME@,
            ).push(load),
        },
        names(defaults.validation.list@) == default_validation_names() && snapshot_handlers is None
            ==> names(r.validation.list@) == default_validation_names().push(config_validation.name@),
{
    let mut extra: Vec<Handler<F>> = Vec::new();
    extra.push(config_validation);
    let handlers = Handlers { validation: defaults.validation.append(extra), fc_init: defaults.fc_init };
    assert(handlers.validation.list@ =~= defaults.validation.list@.push(config_validation));
    assert(names(defaults.validation.list@.push(config_validation)) =~= names(defaults.validation.list@).push(
        config_validation.name@,
    ));
    match snapshot_handlers {
        None => handlers,
        Some((load_validation, load)) => adapt_handlers_for_snapshot(handlers, load_validation, load),
    }
}

/// The metadata service version string of the API for a version.
pub fn version_to_model(version: MMDSVersion) -> (r: &'static str)
    ensures
        r@ == (match version {
            MMDSVersion::V1 => MMDS_VERSION_V1@,
            MMDSVersion::V2 => MMDS_VERSION_V2@,
        }),
{
    match version {
        MMDSVersion::V1 => MMDS_VERSION_V1,
        MMDSVersion::V2 => MMDS_VERSION_V2,
    }
}

} // verus!
