//! Building the list of block devices of a microVM.

use vstd::prelude::*;

use crate::models::{Drive, DriveView, RateLimiter, DRIVE_CACHE_TYPE_WRITEBACK};
use crate::text::{decimal, u64_to_decimal};

verus! {

/// Identifier of the root block device.
pub const ROOT_DRIVE_NAME: &'static str = "root_drive";

/// An option that adjusts one setting of a drive.
#[derive(Debug, Clone, PartialEq, Eq)]
pub enum DriveOpt {
    DriveId(String),
    ReadOnly(bool),
    Partuuid(String),
    RateLimiter(RateLimiter),
    CacheType(String),
    IoEngine(String),
}

impl DriveOpt {
    /// The drive after this option was applied to `d`.
    pub open spec fn apply_spec(&self, d: DriveView) -> DriveView {
        match self {
            DriveOpt::DriveId(id) => DriveView { drive_id: Some(id@), ..d },
            DriveOpt::ReadOnly(flag) => DriveView { is_read_only: Some(*flag), ..d },
            DriveOpt::Partuuid(p) => DriveView { partuuid: Some(p@), ..d },
            DriveOpt::RateLimiter(l) => DriveView { rate_limiter: Some(*l), ..d },
            DriveOpt::CacheType(c) => DriveView { cache_type: Some(c@), ..d },
            DriveOpt::IoEngine(e) => DriveView { io_engine: Some(e@), ..d },
        }
    }

    /// Applies this option to a drive.
    pub fn apply(&self, drive: &mut Drive)
        ensures
            final(drive)@ == self.apply_spec(old(drive)@),
    {
        match self {
            DriveOpt::DriveId(id) => drive.drive_id = Some(id.clone()),
            DriveOpt::ReadOnly(flag) => drive.is_read_only = Some(*flag),
            DriveOpt::Partuuid(p) => drive.partuuid = Some(p.clone()),
            DriveOpt::RateLimiter(l) => drive.rate_limiter = Some(*l),
            DriveOpt::CacheType(c) => drive.cache_type = Some(c.clone()),
            DriveOpt::IoEngine(e) => drive.io_engine = Some(e.clone()),
        }
    }
}

/// The drive after the options were applied to `d` in order.
pub open spec fn apply_drive_opts(opts: Seq<DriveOpt>, d: DriveView) -> DriveView
    decreases opts.len(),
{
    if opts.len() == 0 {
        d
    } else {
        opts.last().apply_spec(apply_drive_opts(opts.drop_last(), d))
    }
}

/// Applies the options to a drive in order.
pub fn apply_opts(drive: &mut Drive, opts: &Vec<DriveOpt>)
    ensures
        final(drive)@ == apply_drive_opts(opts@, old(drive)@),
{
    let mut i: usize = 0;
    while i < opts.len()
        invariant
            i <= opts.len(),
            drive@ == apply_drive_opts(opts@.take(i as int), old(drive)@),
        decreases opts.len() - i,
    {
        opts[i].apply(drive);
        assert(opts@.take(i as int + 1).drop_last() =~= opts@.take(i as int));
        i = i + 1;
    }
    assert(opts@.take(opts.len() as int) =~= opts@);
}

/// Sets the drive identifier.
pub fn with_drive_id(id: String) -> (r: DriveOpt)
    ensures
        r == DriveOpt::DriveId(id),
{
    DriveOpt::DriveId(id)
}

/// Sets whether the drive is read-only.
pub fn with_read_only(flag: bool) -> (r: DriveOpt)
    ensures
        r == DriveOpt::ReadOnly(flag),
{
    DriveOpt::ReadOnly(flag)
}

/// Sets the partition UUID of the drive.
pub fn with_partuuid(partuuid: String) -> (r: DriveOpt)
    ensures
        r == DriveOpt::Partuuid(partuuid),
{
    DriveOpt::Partuuid(partuuid)
}

/// Sets the rate limiter of the drive.
pub fn with_rate_limiter(limiter: RateLimiter) -> (r: DriveOpt)
    ensures
        r == DriveOpt::RateLimiter(limiter),
{
    DriveOpt::RateLimiter(limiter)
}

/// Sets the cache type of the drive.
pub fn with_cache_type(cache_type: String) -> (r: DriveOpt)
    ensures
        r == DriveOpt::CacheType(cache_type),
{
    DriveOpt::CacheType(cache_type)
}

/// Sets the I/O engine of the drive.
pub fn with_io_engine(io_engine: String) -> (r: DriveOpt)
    ensures
        r == DriveOpt::IoEngine(io_engine),
{
    DriveOpt::IoEngine(io_engine)
}

/// The root drive backed by `path`: writable, with the root identifier.
pub open spec fn root_drive_spec(path: Seq<char>) -> DriveView {
    DriveView {
        drive_id: Some(ROOT_DRIVE_NAME@),
        path_on_host: Some(path),
        is_root_device: Some(true),
        is_read_only: Some(false),
        partuuid: None,
        rate_limiter: None,
        cache_type: None,
        io_engine: None,
    }
}

/// The `index`-th added drive backed by `path`, before its options.
pub open spec fn added_drive_spec(index: nat, path: Seq<char>, read_only: bool) -> DriveView {
    DriveView {
        drive_id: Some(decimal(index)),
        path_on_host: Some(path),
        is_root_device: Some(false),
        is_read_only: Some(read_only),
        partuuid: None,
        rate_limiter: None,
        cache_type: None,
        io_engine: None,
    }
}

/// The drives of a sequence, each by its view.
pub open spec fn drive_views(v: Seq<Drive>) -> Seq<DriveView> {
    v.map_values(|d: Drive| d@)
}

/// Options never change whether a drive is the root device.
pub proof fn lemma_opts_keep_root_flag(opts: Seq<DriveOpt>, d: DriveView)
    ensures
        apply_drive_opts(opts, d).is_root_device == d.is_root_device,
    decreases opts.len(),
{
    if opts.len() > 0 {
        lemma_opts_keep_root_flag(opts.drop_last(), d);
    }
}

/// Builder of the drive list: the added drives, then the root drive.
#[derive(Debug, Clone, Default)]
pub struct DrivesBuilder {
    root_drive: Drive,
    drives: Vec<Drive>,
}

/// Mathematical value of a [`DrivesBuilder`].
pub struct DrivesBuilderView {
    pub root_drive: DriveView,
    pub drives: Seq<DriveView>,
}

/// A builder whose root drive is the root device and whose added drives are
/// not.
pub open spec fn builder_wf(b: DrivesBuilderView) -> bool {
    &&& b.root_drive.is_root_device == Some(true)
    &&& forall|i: int| 0 <= i < b.drives.len() ==> (#[trigger] b.drives[i]).is_root_device == Some(false)
}

impl View for DrivesBuilder {
    type V = DrivesBuilderView;

    closed spec fn view(&self) -> DrivesBuilderView {
        DrivesBuilderView { root_drive: self.root_drive@, drives: drive_views(self.drives@) }
    }
}

fn root_drive(path: String) -> (d: Drive)
    ensures
        d@ == root_drive_spec(path@),
{
    Drive {
        drive_id: Some(ROOT_DRIVE_NAME.to_string()),
        path_on_host: Some(path),
        is_root_device: Some(true),
        is_read_only: Some(false),
        partuuid: None,
        rate_limiter: None,
        cache_type: None,
        io_engine: None,
    }
}

impl DrivesBuilder {
    /// A builder whose root drive is backed by `root_drive_path` and that
    /// holds no other drive.
    pub fn new(root_drive_path: String) -> (r: Self)
        ensures
            r@.root_drive == root_drive_spec(root_drive_path@),
            r@.drives == Seq::<DriveView>::empty(),
            builder_wf(r@),
    {
        let r = DrivesBuilder { root_drive: root_drive(root_drive_path), drives: Vec::new() };
        assert(r@.drives =~= Seq::<DriveView>::empty());
        r
    }

    /// Replaces the root drive by one backed by `root_drive_path`, with the
    /// options applied in order.
    pub fn with_root_drive(self, root_drive_path: String, opts: Vec<DriveOpt>) -> (r: Self)
        ensures
            r@.root_drive == apply_drive_opts(opts@, root_drive_spec(root_drive_path@)),
            r@.drives == self@.drives,
            builder_wf(self@) ==> builder_wf(r@),
    {
        proof {
            lemma_opts_keep_root_flag(opts@, root_drive_spec(root_drive_path@));
        }
        let mut root = root_drive(root_drive_path);
        apply_opts(&mut root, &opts);
        DrivesBuilder { root_drive: root, drives: self.drives }
    }

    /// Adds a drive backed by `path`. Its identifier is its position among
    /// the added drives, in decimal, unless an option sets another.
    pub fn add_drive(self, path: String, read_only: bool, opts: Vec<DriveOpt>) -> (r: Self)
        ensures
            r@.root_drive == self@.root_drive,
            r@.drives == self@.drives.push(
                apply_drive_opts(opts@, added_drive_spec(self@.drives.len(), path@, read_only)),
            ),
            builder_wf(self@) ==> builder_wf(r@),
    {
        proof {
            lemma_opts_keep_root_flag(opts@, added_drive_spec(self@.drives.len(), path@, read_only));
        }
        let mut me = self;
        let index = me.drives.len();
        let mut drive = Drive {
            drive_id: Some(u64_to_decimal(index as u64)),
            path_on_host: Some(path),
            is_root_device: Some(false),
            is_read_only: Some(read_only),
            partuuid: None,
            rate_limiter: None,
            cache_type: None,
            io_engine: None,
        };
        apply_opts(&mut drive, &opts);
        let ghost before = me.drives@;
        me.drives.push(drive);
        assert(drive_views(me.drives@) =~= drive_views(before).push(drive@));
        me
    }

    /// The drive list: the added drives in the order they were added,
    /// followed by the root drive.
    pub fn build(self) -> (r: Vec<Drive>)
        ensures
            drive_views(r@) == self@.drives.push(self@.root_drive),
    {
        let mut drives = self.drives;
        let ghost before = drives@;
        drives.push(self.root_drive);
        assert(drive_views(drives@) =~= drive_views(before).push(self.root_drive@));
        drives
    }
}

/// The cache type that drives get when none is chosen.
pub fn default_cache_type() -> (r: &'static str)
    ensures
        r@ == DRIVE_CACHE_TYPE_WRITEBACK@,
{
    DRIVE_CACHE_TYPE_WRITEBACK
}

} // verus!
