use vstd::prelude::*;
use vstd::string::StringExecFns;

use crate::text::{join3, str_eq};

verus! {

/// Errors reported by the option and policy parsers of this crate.
#[derive(Debug, Clone, PartialEq, Eq)]
pub enum RsyncCoreError {
    UnsupportedFeature(&'static str),
    InvalidArgument { name: &'static str, reason: String },
    InvalidPath(String),
}

/// The text of an `RsyncCoreError`.
pub open spec fn core_error_text(e: RsyncCoreError) -> Seq<char> {
    match e {
        RsyncCoreError::UnsupportedFeature(feature) => "unsupported feature: "@ + feature@,
        RsyncCoreError::InvalidArgument { name, reason } => "invalid argument `"@ + name@ + "`: "@
            + reason@,
        RsyncCoreError::InvalidPath(path) => "invalid path: "@ + path@,
    }
}

impl RsyncCoreError {
    /// The error as a message.
    pub fn message(&self) -> (r: String)
        ensures
            r@ == core_error_text(*self),
    {
        match self {
            RsyncCoreError::UnsupportedFeature(feature) => {
                let mut out = String::from_str("unsupported feature: ");
                out.append(feature);
                out
            },
            RsyncCoreError::InvalidArgument { name, reason } => {
                let mut out = join3("invalid argument `", name, "`: ");
                out.append(reason.as_str());
                out
            },
            RsyncCoreError::InvalidPath(path) => {
                let mut out = String::from_str("invalid path: ");
                out.append(path.as_str());
                out
            },
        }
    }
}

/// How much file metadata a transfer tries to carry across.
#[derive(Debug, Clone, Copy, PartialEq, Eq, Structural)]
pub enum MetadataPolicy {
    Portable,
    Posix,
    NtfsNative,
}

impl Default for MetadataPolicy {
    fn default() -> (r: Self)
        ensures
            r == MetadataPolicy::Portable,
    {
        MetadataPolicy::Portable
    }
}

/// The name of a metadata policy on the command line.
pub open spec fn policy_name(policy: MetadataPolicy) -> Seq<char> {
    match policy {
        MetadataPolicy::Portable => "portable"@,
        MetadataPolicy::Posix => "posix"@,
        MetadataPolicy::NtfsNative => "ntfs-native"@,
    }
}

/// The policy a name stands for, if any.
pub open spec fn policy_from_name(name: Seq<char>) -> Option<MetadataPolicy> {
    if name == "portable"@ {
        Some(MetadataPolicy::Portable)
    } else if name == "posix"@ {
        Some(MetadataPolicy::Posix)
    } else if name == "ntfs-native"@ {
        Some(MetadataPolicy::NtfsNative)
    } else {
        None
    }
}

/// The reason given when a policy name is not recognised.
pub open spec fn unknown_policy_reason(name: Seq<char>) -> Seq<char> {
    "expected one of portable, posix, ntfs-native; got `"@ + name + "`"@
}

impl MetadataPolicy {
    pub fn as_str(self) -> (r: &'static str)
        ensures
            r@ == policy_name(self),
    {
        match self {
            MetadataPolicy::Portable => "portable",
            MetadataPolicy::Posix => "posix",
            MetadataPolicy::NtfsNative => "ntfs-native",
        }
    }

    /// Reads a policy from its command-line name.
    pub fn parse(value: &str) -> (r: Result<MetadataPolicy, RsyncCoreError>)
        ensures
            match policy_from_name(value@) {
                Some(p) => r == Ok::<MetadataPolicy, RsyncCoreError>(p),
                None => match r {
                    Err(RsyncCoreError::InvalidArgument { name, reason }) => name@
                        == "metadata-policy"@ && reason@ == unknown_policy_reason(value@),
                    _ => false,
                },
            },
    {
        if str_eq(value, "portable") {
            Ok(MetadataPolicy::Portable)
        } else if str_eq(value, "posix") {
            Ok(MetadataPolicy::Posix)
        } else if str_eq(value, "ntfs-native") {
            Ok(MetadataPolicy::NtfsNative)
        } else {
            let reason = join3("expected one of portable, posix, ntfs-native; got `", value, "`");
            Err(RsyncCoreError::InvalidArgument { name: "metadata-policy", reason })
        }
    }
}

impl std::str::FromStr for MetadataPolicy {
    type Err = RsyncCoreError;

    fn from_str(value: &str) -> Result<MetadataPolicy, RsyncCoreError> {
        MetadataPolicy::parse(value)
    }
}

/// Reading back the name of a policy gives the same policy.
pub proof fn lemma_policy_name_round_trip(policy: MetadataPolicy)
    ensures
        policy_from_name(policy_name(policy)) == Some(policy),
{
    reveal_strlit("portable");
    reveal_strlit("posix");
    reveal_strlit("ntfs-native");
    assert("posix"@.len() != "portable"@.len());
    assert("ntfs-native"@.len() != "portable"@.len());
    assert("ntfs-native"@.len() != "posix"@.len());
}

/// A kind of file metadata that a transfer may or may not carry.
#[derive(Debug, Clone, Copy, PartialEq, Eq, Hash, Structural)]
pub enum MetadataFeature {
    Symlink,
    SymlinkMtime,
    Permissions,
    Executability,
    Owner,
    Group,
    Device,
    SpecialFile,
    Acl,
    Xattr,
    FakeSuper,
    SecurityDescriptor,
    AlternateDataStream,
    AccessTime,
    CreationTime,
    WindowsAttributes,
    SparseFile,
    ReparsePoint,
    VssSnapshot,
}

/// The printed name of a metadata feature.
pub open spec fn feature_label(feature: MetadataFeature) -> Seq<char> {
    match feature {
        MetadataFeature::Symlink => "symlink"@,
        MetadataFeature::SymlinkMtime => "symlink-mtime"@,
        MetadataFeature::Permissions => "permissions"@,
        MetadataFeature::Executability => "executability"@,
        MetadataFeature::Owner => "owner"@,
        MetadataFeature::Group => "group"@,
        MetadataFeature::Device => "device"@,
        MetadataFeature::SpecialFile => "special-file"@,
        MetadataFeature::Acl => "acl"@,
        MetadataFeature::Xattr => "xattr"@,
        MetadataFeature::FakeSuper => "fake-super"@,
        MetadataFeature::SecurityDescriptor => "security-descriptor"@,
        MetadataFeature::AlternateDataStream => "alternate-data-stream"@,
        MetadataFeature::AccessTime => "access-time"@,
        MetadataFeature::CreationTime => "creation-time"@,
        MetadataFeature::WindowsAttributes => "windows-attributes"@,
        MetadataFeature::SparseFile => "sparse-file"@,
        MetadataFeature::ReparsePoint => "reparse-point"@,
        MetadataFeature::VssSnapshot => "vss-snapshot"@,
    }
}

impl MetadataFeature {
    pub fn label(self) -> (r: &'static str)
        ensures
            r@ == feature_label(self),
    {
        match self {
            MetadataFeature::Symlink => "symlink",
            MetadataFeature::SymlinkMtime => "symlink-mtime",
            MetadataFeature::Permissions => "permissions",
            MetadataFeature::Executability => "executability",
            MetadataFeature::Owner => "owner",
            MetadataFeature::Group => "group",
            MetadataFeature::Device => "device",
            MetadataFeature::SpecialFile => "special-file",
            MetadataFeature::Acl => "acl",
            MetadataFeature::Xattr => "xattr",
            MetadataFeature::FakeSuper => "fake-super",
            MetadataFeature::SecurityDescriptor => "security-descriptor",
            MetadataFeature::AlternateDataStream => "alternate-data-stream",
            MetadataFeature::AccessTime => "access-time",
            MetadataFeature::CreationTime => "creation-time",
            MetadataFeature::WindowsAttributes => "windows-attributes",
            MetadataFeature::SparseFile => "sparse-file",
            MetadataFeature::ReparsePoint => "reparse-point",
            MetadataFeature::VssSnapshot => "vss-snapshot",
        }
    }
}

/// What happens to a requested kind of metadata.
#[derive(Debug, Clone, Copy, PartialEq, Eq, Hash, Structural)]
pub enum MetadataAction {
    Applied,
    Stored,
    Degraded,
    Ignored,
    Rejected,
}

/// The printed name of a metadata action.
pub open spec fn action_label(action: MetadataAction) -> Seq<char> {
    match action {
        MetadataAction::Applied => "applied"@,
        MetadataAction::Stored => "stored"@,
        MetadataAction::Degraded => "degraded"@,
        MetadataAction::Ignored => "ignored"@,
        MetadataAction::Rejected => "rejected"@,
    }
}

impl MetadataAction {
    pub fn label(self) -> (r: &'static str)
        ensures
            r@ == action_label(self),
    {
        match self {
            MetadataAction::Applied => "applied",
            MetadataAction::Stored => "stored",
            MetadataAction::Degraded => "degraded",
            MetadataAction::Ignored => "ignored",
            MetadataAction::Rejected => "rejected",
        }
    }
}

/// Whether an action loses the requested metadata (it is neither applied nor stored).
pub open spec fn action_is_loss(action: MetadataAction) -> bool {
    !(action is Applied || action is Stored)
}

/// One kind of metadata, what happens to it, and why.
#[derive(Debug, Clone, PartialEq, Eq)]
pub struct MetadataDegradation {
    pub feature: MetadataFeature,
    pub action: MetadataAction,
    pub message: String,
}

impl View for MetadataDegradation {
    type V = (MetadataFeature, MetadataAction, Seq<char>);

    open spec fn view(&self) -> (MetadataFeature, MetadataAction, Seq<char>) {
        (self.feature, self.action, self.message@)
    }
}

/// The views of a list of degradations.
pub open spec fn degradation_views(s: Seq<MetadataDegradation>) -> Seq<
    (MetadataFeature, MetadataAction, Seq<char>),
> {
    s.map_values(|d: MetadataDegradation| d@)
}

/// One entry when `present` holds, none otherwise.
pub open spec fn entry_if(
    present: bool,
    feature: MetadataFeature,
    action: MetadataAction,
    message: Seq<char>,
) -> Seq<(MetadataFeature, MetadataAction, Seq<char>)> {
    if present {
        seq![(feature, action, message)]
    } else {
        Seq::empty()
    }
}

impl MetadataDegradation {
    pub fn new(feature: MetadataFeature, action: MetadataAction, message: &str) -> (r: Self)
        ensures
            r@ == (feature, action, message@),
    {
        MetadataDegradation { feature, action, message: message.to_owned() }
    }

    pub fn is_loss(&self) -> (r: bool)
        ensures
            r == action_is_loss(self.action),
    {
        !matches!(self.action, MetadataAction::Applied | MetadataAction::Stored)
    }
}

/// Appends one degradation to `out`.
fn push_degradation(
    out: &mut Vec<MetadataDegradation>,
    feature: MetadataFeature,
    action: MetadataAction,
    message: &str,
)
    ensures
        degradation_views(final(out)@) == degradation_views(old(out)@) + seq![
            (feature, action, message@),
        ],
{
    out.push(MetadataDegradation::new(feature, action, message));
    assert(degradation_views(out@) =~= degradation_views(old(out)@) + seq![
        (feature, action, message@),
    ]);
}

/// One of the options that archive mode (`-a`) stands for.
#[derive(Debug, Clone, Copy, PartialEq, Eq, Structural)]
pub enum ArchiveComponent {
    Recursive,
    Links,
    Permissions,
    Times,
    Group,
    Owner,
    Devices,
}

/// The short option of an archive component.
pub open spec fn component_flag(component: ArchiveComponent) -> Seq<char> {
    match component {
        ArchiveComponent::Recursive => "-r"@,
        ArchiveComponent::Links => "-l"@,
        ArchiveComponent::Permissions => "-p"@,
        ArchiveComponent::Times => "-t"@,
        ArchiveComponent::Group => "-g"@,
        ArchiveComponent::Owner => "-o"@,
        ArchiveComponent::Devices => "-D"@,
    }
}

impl ArchiveComponent {
    pub fn flag(self) -> (r: &'static str)
        ensures
            r@ == component_flag(self),
    {
        match self {
            ArchiveComponent::Recursive => "-r",
            ArchiveComponent::Links => "-l",
            ArchiveComponent::Permissions => "-p",
            ArchiveComponent::Times => "-t",
            ArchiveComponent::Group => "-g",
            ArchiveComponent::Owner => "-o",
            ArchiveComponent::Devices => "-D",
        }
    }
}

/// The options archive mode stands for, in the order `rlptgoD`.
pub fn archive_mode_components() -> (r: [ArchiveComponent; 7])
    ensures
        r@ == seq![
            ArchiveComponent::Recursive,
            ArchiveComponent::Links,
            ArchiveComponent::Permissions,
            ArchiveComponent::Times,
            ArchiveComponent::Group,
            ArchiveComponent::Owner,
            ArchiveComponent::Devices,
        ],
{
    let r = [
        ArchiveComponent::Recursive,
        ArchiveComponent::Links,
        ArchiveComponent::Permissions,
        ArchiveComponent::Times,
        ArchiveComponent::Group,
        ArchiveComponent::Owner,
        ArchiveComponent::Devices,
    ];
    assert(r@ =~= seq![
        ArchiveComponent::Recursive,
        ArchiveComponent::Links,
        ArchiveComponent::Permissions,
        ArchiveComponent::Times,
        ArchiveComponent::Group,
        ArchiveComponent::Owner,
        ArchiveComponent::Devices,
    ]);
    r
}

/// The POSIX metadata options given for a transfer.
#[derive(Debug, Clone, Copy, Default, PartialEq, Eq, Structural)]
pub struct PosixMetadataRequest {
    pub permissions: bool,
    pub owner: bool,
    pub group: bool,
    pub numeric_ids: bool,
    pub chmod: bool,
    pub executability: bool,
    pub symlink_mtime: bool,
    pub acls: bool,
    pub xattrs: bool,
    pub fake_super: bool,
    pub atimes: bool,
    pub crtimes: bool,
    pub omit_dir_times: bool,
    pub user_map: bool,
    pub group_map: bool,
    pub chown: bool,
}

/// Whether any POSIX metadata option is given.
pub open spec fn posix_request_any(r: PosixMetadataRequest) -> bool {
    r.permissions || r.owner || r.group || r.numeric_ids || r.chmod || r.executability
        || r.symlink_mtime || r.acls || r.xattrs || r.fake_super || r.atimes || r.crtimes
        || r.omit_dir_times || r.user_map || r.group_map || r.chown
}

/// `Stored` when metadata goes to the fake-super sidecar, `otherwise` when not.
pub open spec fn stored_or(fake_super: bool, otherwise: MetadataAction) -> MetadataAction {
    if fake_super {
        MetadataAction::Stored
    } else {
        otherwise
    }
}

/// What becomes of the permission options (`--perms`, `--chmod`, `--executability`).
pub open spec fn posix_mode_entries(r: PosixMetadataRequest, policy: MetadataPolicy) -> Seq<(MetadataFeature, MetadataAction, Seq<char>)> {
    let fs = r.fake_super;
    entry_if(r.permissions,
            MetadataFeature::Permissions,
            stored_or(fs, MetadataAction::Degraded),
            if fs {
                "--perms requests POSIX mode preservation; mode bits are stored in the fake-super sidecar"@
            } else {
                "--perms requests POSIX mode preservation; "@ + policy_name(policy)
                    + " local transfers record mode intent but do not chmod Windows destinations yet"@
            },)
    + entry_if(r.chmod,
            MetadataFeature::Permissions,
            stored_or(fs, MetadataAction::Degraded),
            if fs {
                "--chmod requests POSIX mode rewriting; rewritten mode bits are stored in the fake-super sidecar"@
            } else {
                "--chmod requests POSIX mode rewriting; "@ + policy_name(policy)
                    + " local transfers report the request but do not apply chmod expressions yet"@
            },)
    + entry_if(r.executability,
            MetadataFeature::Executability,
            stored_or(fs, MetadataAction::Degraded),
            if fs {
                "--executability mode intent is stored in the fake-super sidecar"@
            } else {
                "--executability is represented in sender mode mapping for remote uploads; local Windows destinations do not apply executable bits"@
            },)
}

/// What becomes of the owner and group options.
pub open spec fn posix_id_entries(r: PosixMetadataRequest) -> Seq<(MetadataFeature, MetadataAction, Seq<char>)> {
    let fs = r.fake_super;
    entry_if(r.owner,
            MetadataFeature::Owner,
            stored_or(fs, MetadataAction::Ignored),
            if fs {
                "owner metadata is stored in the fake-super sidecar"@
            } else if r.numeric_ids {
                "--numeric-ids requests numeric POSIX owner ids; Windows local transfers do not apply POSIX owners"@
            } else {
                "--owner requests POSIX owner preservation; Windows local transfers do not apply POSIX owners"@
            },)
    + entry_if(r.group,
            MetadataFeature::Group,
            stored_or(fs, MetadataAction::Ignored),
            if fs {
                "group metadata is stored in the fake-super sidecar"@
            } else if r.numeric_ids {
                "--numeric-ids requests numeric POSIX group ids; Windows local transfers do not apply POSIX groups"@
            } else {
                "--group requests POSIX group preservation; Windows local transfers do not apply POSIX groups"@
            },)
}

/// What becomes of symlink times, ACLs, xattrs and the fake-super sidecar.
pub open spec fn posix_extended_entries(r: PosixMetadataRequest) -> Seq<(MetadataFeature, MetadataAction, Seq<char>)> {
    let fs = r.fake_super;
    entry_if(r.symlink_mtime,
            MetadataFeature::SymlinkMtime,
            MetadataAction::Degraded,
            "symlink mtime preservation is protocol/platform-dependent and is not applied by the local Windows executor yet"@,)
    + entry_if(r.acls,
            MetadataFeature::Acl,
            stored_or(fs, MetadataAction::Ignored),
            if fs {
                "--acls metadata requested with fake-super; POSIX ACL intent is stored in the fake-super sidecar"@
            } else {
                "--acls requests POSIX ACL preservation; Windows local transfers do not apply POSIX ACLs"@
            },)
    + entry_if(r.xattrs,
            MetadataFeature::Xattr,
            stored_or(fs, MetadataAction::Ignored),
            if fs {
                "--xattrs metadata requested with fake-super; POSIX xattr intent is stored in the fake-super sidecar"@
            } else {
                "--xattrs requests extended attribute preservation; Windows local transfers do not apply POSIX xattrs"@
            },)
    + entry_if(fs,
            MetadataFeature::FakeSuper,
            MetadataAction::Stored,
            "--fake-super metadata is stored in a Windows sidecar for local transfers"@,)
}

/// What becomes of the access, creation and directory time options.
pub open spec fn posix_time_entries(r: PosixMetadataRequest) -> Seq<(MetadataFeature, MetadataAction, Seq<char>)> {
    let fs = r.fake_super;
    entry_if(r.atimes,
            MetadataFeature::AccessTime,
            stored_or(fs, MetadataAction::Degraded),
            if fs {
                "--atimes intent is stored in the fake-super sidecar"@
            } else {
                "--atimes preservation is platform-dependent and is not applied by the local Windows executor yet"@
            },)
    + entry_if(r.crtimes,
            MetadataFeature::CreationTime,
            stored_or(fs, MetadataAction::Degraded),
            if fs {
                "--crtimes intent is stored in the fake-super sidecar"@
            } else {
                "--crtimes preservation requires platform-specific creation-time support"@
            },)
    + entry_if(r.omit_dir_times,
            MetadataFeature::Permissions,
            MetadataAction::Applied,
            "--omit-dir-times is applied by not scheduling directory mtime preservation in local planning"@,)
}

/// What becomes of the owner and group mapping options.
pub open spec fn posix_mapping_entries(r: PosixMetadataRequest) -> Seq<(MetadataFeature, MetadataAction, Seq<char>)> {
    let fs = r.fake_super;
    entry_if(r.user_map || r.chown,
            MetadataFeature::Owner,
            stored_or(fs, MetadataAction::Ignored),
            if fs {
                "owner mapping intent is stored in the fake-super sidecar"@
            } else {
                "owner mapping is meaningful for remote POSIX receivers; local Windows transfers do not apply POSIX owners"@
            },)
    + entry_if(r.group_map || r.chown,
            MetadataFeature::Group,
            stored_or(fs, MetadataAction::Ignored),
            if fs {
                "group mapping intent is stored in the fake-super sidecar"@
            } else {
                "group mapping is meaningful for remote POSIX receivers; local Windows transfers do not apply POSIX groups"@
            },)
}

/// What a local transfer under `policy` does with each POSIX metadata option of `r`, in order.
pub open spec fn posix_request_degradations(
    r: PosixMetadataRequest,
    policy: MetadataPolicy,
) -> Seq<(MetadataFeature, MetadataAction, Seq<char>)> {
    posix_mode_entries(r, policy) + posix_id_entries(r) + posix_extended_entries(r)
        + posix_time_entries(r) + posix_mapping_entries(r)
}

impl PosixMetadataRequest {
    pub fn any(self) -> (r: bool)
        ensures
            r == posix_request_any(self),
    {
        self.permissions || self.owner || self.group || self.numeric_ids || self.chmod
            || self.executability || self.symlink_mtime || self.acls || self.xattrs
            || self.fake_super || self.atimes || self.crtimes || self.omit_dir_times
            || self.user_map || self.group_map || self.chown
    }

    /// What a local transfer under `policy` does with each requested kind of POSIX metadata.
    pub fn degradations(self, policy: MetadataPolicy) -> (r: Vec<MetadataDegradation>)
        ensures
            degradation_views(r@) == posix_request_degradations(self, policy),
    {
        let mut out: Vec<MetadataDegradation> = Vec::new();
        assert(degradation_views(out@) =~= Seq::empty());
        self.push_mode_entries(policy, &mut out);
        self.push_id_entries(&mut out);
        self.push_extended_entries(&mut out);
        self.push_time_entries(&mut out);
        self.push_mapping_entries(&mut out);
        assert(degradation_views(out@) =~= posix_request_degradations(self, policy));
        out
    }

    fn push_mode_entries(self, policy: MetadataPolicy, out: &mut Vec<MetadataDegradation>)
        ensures
            degradation_views(final(out)@) == degradation_views(old(out)@) + posix_mode_entries(self, policy),
    {
        let ghost start = degradation_views(out@);
        let label = policy.as_str();
        let fs = self.fake_super;
        let stored_or_degraded = if fs {
            MetadataAction::Stored
        } else {
            MetadataAction::Degraded
        };

        if self.permissions {
            if fs {
                push_degradation(
                    out,
                    MetadataFeature::Permissions,
                    stored_or_degraded,
                    "--perms requests POSIX mode preservation; mode bits are stored in the fake-super sidecar",
                );
            } else {
                let message = join3(
                    "--perms requests POSIX mode preservation; ",
                    label,
                    " local transfers record mode intent but do not chmod Windows destinations yet",
                );
                push_degradation(out, MetadataFeature::Permissions, stored_or_degraded, message.as_str());
            }
        }

        if self.chmod {
            if fs {
                push_degradation(
                    out,
                    MetadataFeature::Permissions,
                    stored_or_degraded,
                    "--chmod requests POSIX mode rewriting; rewritten mode bits are stored in the fake-super sidecar",
                );
            } else {
                let message = join3(
                    "--chmod requests POSIX mode rewriting; ",
                    label,
                    " local transfers report the request but do not apply chmod expressions yet",
                );
                push_degradation(out, MetadataFeature::Permissions, stored_or_degraded, message.as_str());
            }
        }

        if self.executability {
            push_degradation(
                out,
                MetadataFeature::Executability,
                stored_or_degraded,
                if fs {
                    "--executability mode intent is stored in the fake-super sidecar"
                } else {
                    "--executability is represented in sender mode mapping for remote uploads; local Windows destinations do not apply executable bits"
                },
            );
        }
        assert(degradation_views(out@) =~= start + posix_mode_entries(self, policy));
    }

    fn push_id_entries(self, out: &mut Vec<MetadataDegradation>)
        ensures
            degradation_views(final(out)@) == degradation_views(old(out)@) + posix_id_entries(self),
    {
        let ghost start = degradation_views(out@);
        let fs = self.fake_super;
        let stored_or_ignored = if fs {
            MetadataAction::Stored
        } else {
            MetadataAction::Ignored
        };

        if self.owner {
            let message = if fs {
                "owner metadata is stored in the fake-super sidecar"
            } else if self.numeric_ids {
                "--numeric-ids requests numeric POSIX owner ids; Windows local transfers do not apply POSIX owners"
            } else {
                "--owner requests POSIX owner preservation; Windows local transfers do not apply POSIX owners"
            };
            push_degradation(out, MetadataFeature::Owner, stored_or_ignored, message);
        }

        if self.group {
            let message = if fs {
                "group metadata is stored in the fake-super sidecar"
            } else if self.numeric_ids {
                "--numeric-ids requests numeric POSIX group ids; Windows local transfers do not apply POSIX groups"
            } else {
                "--group requests POSIX group preservation; Windows local transfers do not apply POSIX groups"
            };
            push_degradation(out, MetadataFeature::Group, stored_or_ignored, message);
        }
        assert(degradation_views(out@) =~= start + posix_id_entries(self));
    }

    fn push_extended_entries(self, out: &mut Vec<MetadataDegradation>)
        ensures
            degradation_views(final(out)@) == degradation_views(old(out)@) + posix_extended_entries(self),
    {
        let ghost start = degradation_views(out@);
        let fs = self.fake_super;
        let stored_or_ignored = if fs {
            MetadataAction::Stored
        } else {
            MetadataAction::Ignored
        };

        if self.symlink_mtime {
            push_degradation(
                out,
                MetadataFeature::SymlinkMtime,
                MetadataAction::Degraded,
                "symlink mtime preservation is protocol/platform-dependent and is not applied by the local Windows executor yet",
            );
        }

        if self.acls {
            let message = if fs {
                "--acls metadata requested with fake-super; POSIX ACL intent is stored in the fake-super sidecar"
            } else {
                "--acls requests POSIX ACL preservation; Windows local transfers do not apply POSIX ACLs"
            };
            push_degradation(out, MetadataFeature::Acl, stored_or_ignored, message);
        }

        if self.xattrs {
            let message = if fs {
                "--xattrs metadata requested with fake-super; POSIX xattr intent is stored in the fake-super sidecar"
            } else {
                "--xattrs requests extended attribute preservation; Windows local transfers do not apply POSIX xattrs"
            };
            push_degradation(out, MetadataFeature::Xattr, stored_or_ignored, message);
        }

        if fs {
            push_degradation(
                out,
                MetadataFeature::FakeSuper,
                MetadataAction::Stored,
                "--fake-super metadata is stored in a Windows sidecar for local transfers",
            );
        }
        assert(degradation_views(out@) =~= start + posix_extended_entries(self));
    }

    fn push_time_entries(self, out: &mut Vec<MetadataDegradation>)
        ensures
            degradation_views(final(out)@) == degradation_views(old(out)@) + posix_time_entries(self),
    {
        let ghost start = degradation_views(out@);
        let fs = self.fake_super;
        let stored_or_degraded = if fs {
            MetadataAction::Stored
        } else {
            MetadataAction::Degraded
        };

        if self.atimes {
            let message = if fs {
                "--atimes intent is stored in the fake-super sidecar"
            } else {
                "--atimes preservation is platform-dependent and is not applied by the local Windows executor yet"
            };
            push_degradation(out, MetadataFeature::AccessTime, stored_or_degraded, message);
        }

        if self.crtimes {
            let message = if fs {
                "--crtimes intent is stored in the fake-super sidecar"
            } else {
                "--crtimes preservation requires platform-specific creation-time support"
            };
            push_degradation(out, MetadataFeature::CreationTime, stored_or_degraded, message);
        }

        if self.omit_dir_times {
            push_degradation(
                out,
                MetadataFeature::Permissions,
                MetadataAction::Applied,
                "--omit-dir-times is applied by not scheduling directory mtime preservation in local planning",
            );
        }
        assert(degradation_views(out@) =~= start + posix_time_entries(self));
    }

    fn push_mapping_entries(self, out: &mut Vec<MetadataDegradation>)
        ensures
            degradation_views(final(out)@) == degradation_views(old(out)@) + posix_mapping_entries(self),
    {
        let ghost start = degradation_views(out@);
        let fs = self.fake_super;
        let stored_or_ignored = if fs {
            MetadataAction::Stored
        } else {
            MetadataAction::Ignored
        };

        if self.user_map || self.chown {
            let message = if fs {
                "owner mapping intent is stored in the fake-super sidecar"
            } else {
                "owner mapping is meaningful for remote POSIX receivers; local Windows transfers do not apply POSIX owners"
            };
            push_degradation(out, MetadataFeature::Owner, stored_or_ignored, message);
        }

        if self.group_map || self.chown {
            let message = if fs {
                "group mapping intent is stored in the fake-super sidecar"
            } else {
                "group mapping is meaningful for remote POSIX receivers; local Windows transfers do not apply POSIX groups"
            };
            push_degradation(out, MetadataFeature::Group, stored_or_ignored, message);
        }
        assert(degradation_views(out@) =~= start + posix_mapping_entries(self));
    }

}

/// The NTFS-native metadata options given for a transfer.
#[derive(Debug, Clone, Copy, Default, PartialEq, Eq, Structural)]
pub struct NtfsNativeMetadataRequest {
    pub security_descriptors: bool,
    pub alternate_data_streams: bool,
    pub creation_time: bool,
    pub windows_attributes: bool,
    pub sparse_files: bool,
    pub reparse_points: bool,
    pub vss_snapshot: bool,
}

/// What a local transfer does with each NTFS-native option of `r`, in order.
pub open spec fn ntfs_request_degradations(r: NtfsNativeMetadataRequest) -> Seq<(MetadataFeature, MetadataAction, Seq<char>)> {
    entry_if(
        r.security_descriptors,
        MetadataFeature::SecurityDescriptor,
        MetadataAction::Degraded,
        "metadata-policy=ntfs-native captures security descriptor summaries in a sidecar prototype but does not restore them yet"@,
    )
    + entry_if(
        r.alternate_data_streams,
        MetadataFeature::AlternateDataStream,
        MetadataAction::Degraded,
        "metadata-policy=ntfs-native copies named alternate data stream payloads for local Windows syncs; default data streams remain ordinary file content and unsupported platforms report this as unavailable"@,
    )
    + entry_if(
        r.creation_time,
        MetadataFeature::CreationTime,
        MetadataAction::Ignored,
        "metadata-policy=ntfs-native requests creation time preservation; the local executor does not apply creation times yet"@,
    )
    + entry_if(
        r.windows_attributes,
        MetadataFeature::WindowsAttributes,
        MetadataAction::Degraded,
        "metadata-policy=ntfs-native restores the tested readonly/hidden/archive/system attribute subset and degrades unsupported attribute bits"@,
    )
    + entry_if(
        r.sparse_files,
        MetadataFeature::SparseFile,
        MetadataAction::Degraded,
        "metadata-policy=ntfs-native detects sparse files but sparse range preservation is not wired into copying yet"@,
    )
    + entry_if(
        r.reparse_points,
        MetadataFeature::ReparsePoint,
        MetadataAction::Rejected,
        "metadata-policy=ntfs-native does not preserve arbitrary reparse points yet; unsafe reparse points remain blocked"@,
    )
    + entry_if(
        r.vss_snapshot,
        MetadataFeature::VssSnapshot,
        MetadataAction::Rejected,
        "--vss requests snapshot source mode; VSS snapshot creation is not implemented in this build"@,
    )
}

impl NtfsNativeMetadataRequest {
    /// Every NTFS-native option but the VSS snapshot.
    pub fn all() -> (r: Self)
        ensures
            r == (NtfsNativeMetadataRequest {
                security_descriptors: true,
                alternate_data_streams: true,
                creation_time: true,
                windows_attributes: true,
                sparse_files: true,
                reparse_points: true,
                vss_snapshot: false,
            }),
    {
        NtfsNativeMetadataRequest {
            security_descriptors: true,
            alternate_data_streams: true,
            creation_time: true,
            windows_attributes: true,
            sparse_files: true,
            reparse_points: true,
            vss_snapshot: false,
        }
    }

    /// The same request with the VSS snapshot option set to `enabled`.
    pub fn with_vss(self, enabled: bool) -> (r: Self)
        ensures
            r == (NtfsNativeMetadataRequest { vss_snapshot: enabled, ..self }),
    {
        let mut r = self;
        r.vss_snapshot = enabled;
        r
    }

    /// What a local transfer does with each requested kind of NTFS metadata.
    pub fn degradations(self) -> (r: Vec<MetadataDegradation>)
        ensures
            degradation_views(r@) == ntfs_request_degradations(self),
    {
        let mut out: Vec<MetadataDegradation> = Vec::new();
        let ghost mut expected: Seq<(MetadataFeature, MetadataAction, Seq<char>)> = Seq::empty();
        assert(degradation_views(out@) =~= expected);
        if self.security_descriptors {
            push_degradation(
                &mut out,
                MetadataFeature::SecurityDescriptor,
                MetadataAction::Degraded,
                "metadata-policy=ntfs-native captures security descriptor summaries in a sidecar prototype but does not restore them yet",
            );
        }
        proof {
            expected = expected + entry_if(
                self.security_descriptors,
                MetadataFeature::SecurityDescriptor,
                MetadataAction::Degraded,
                "metadata-policy=ntfs-native captures security descriptor summaries in a sidecar prototype but does not restore them yet"@,
            );
        }
        assert(degradation_views(out@) =~= expected);
        if self.alternate_data_streams {
            push_degradation(
                &mut out,
                MetadataFeature::AlternateDataStream,
                MetadataAction::Degraded,
                "metadata-policy=ntfs-native copies named alternate data stream payloads for local Windows syncs; default data streams remain ordinary file content and unsupported platforms report this as unavailable",
            );
        }
        proof {
            expected = expected + entry_if(
                self.alternate_data_streams,
                MetadataFeature::AlternateDataStream,
                MetadataAction::Degraded,
                "metadata-policy=ntfs-native copies named alternate data stream payloads for local Windows syncs; default data streams remain ordinary file content and unsupported platforms report this as unavailable"@,
            );
        }
        assert(degradation_views(out@) =~= expected);
        if self.creation_time {
            push_degradation(
                &mut out,
                MetadataFeature::CreationTime,
                MetadataAction::Ignored,
                "metadata-policy=ntfs-native requests creation time preservation; the local executor does not apply creation times yet",
            );
        }
        proof {
            expected = expected + entry_if(
                self.creation_time,
                MetadataFeature::CreationTime,
                MetadataAction::Ignored,
                "metadata-policy=ntfs-native requests creation time preservation; the local executor does not apply creation times yet"@,
            );
        }
        assert(degradation_views(out@) =~= expected);
        if self.windows_attributes {
            push_degradation(
                &mut out,
                MetadataFeature::WindowsAttributes,
                MetadataAction::Degraded,
                "metadata-policy=ntfs-native restores the tested readonly/hidden/archive/system attribute subset and degrades unsupported attribute bits",
            );
        }
        proof {
            expected = expected + entry_if(
                self.windows_attributes,
                MetadataFeature::WindowsAttributes,
                MetadataAction::Degraded,
                "metadata-policy=ntfs-native restores the tested readonly/hidden/archive/system attribute subset and degrades unsupported attribute bits"@,
            );
        }
        assert(degradation_views(out@) =~= expected);
        if self.sparse_files {
            push_degradation(
                &mut out,
                MetadataFeature::SparseFile,
                MetadataAction::Degraded,
                "metadata-policy=ntfs-native detects sparse files but sparse range preservation is not wired into copying yet",
            );
        }
        proof {
            expected = expected + entry_if(
                self.sparse_files,
                MetadataFeature::SparseFile,
                MetadataAction::Degraded,
                "metadata-policy=ntfs-native detects sparse files but sparse range preservation is not wired into copying yet"@,
            );
        }
        assert(degradation_views(out@) =~= expected);
        if self.reparse_points {
            push_degradation(
                &mut out,
                MetadataFeature::ReparsePoint,
                MetadataAction::Rejected,
                "metadata-policy=ntfs-native does not preserve arbitrary reparse points yet; unsafe reparse points remain blocked",
            );
        }
        proof {
            expected = expected + entry_if(
                self.reparse_points,
                MetadataFeature::ReparsePoint,
                MetadataAction::Rejected,
                "metadata-policy=ntfs-native does not preserve arbitrary reparse points yet; unsafe reparse points remain blocked"@,
            );
        }
        assert(degradation_views(out@) =~= expected);
        if self.vss_snapshot {
            push_degradation(
                &mut out,
                MetadataFeature::VssSnapshot,
                MetadataAction::Rejected,
                "--vss requests snapshot source mode; VSS snapshot creation is not implemented in this build",
            );
        }
        proof {
            expected = expected + entry_if(
                self.vss_snapshot,
                MetadataFeature::VssSnapshot,
                MetadataAction::Rejected,
                "--vss requests snapshot source mode; VSS snapshot creation is not implemented in this build"@,
            );
        }
        assert(degradation_views(out@) =~= expected);
        out
    }
}

/// What a local transfer under `policy` does with the metadata that archive mode asks for.
pub open spec fn archive_degradations(policy: MetadataPolicy) -> Seq<(MetadataFeature, MetadataAction, Seq<char>)> {
    seq![
        (
            MetadataFeature::Symlink,
            MetadataAction::Degraded,
            "archive mode requests symlink preservation; "@ + policy_name(policy)
                + " transfers do not apply symlink preservation in the local executor yet"@,
        ),
        (
            MetadataFeature::Permissions,
            MetadataAction::Degraded,
            "archive mode requests POSIX permissions; "@ + policy_name(policy)
                + " transfers do not apply POSIX permissions in the local executor yet"@,
        ),
        (
            MetadataFeature::Owner,
            MetadataAction::Ignored,
            "archive mode requests owner preservation; Windows portable transfers do not apply POSIX owners"@,
        ),
        (
            MetadataFeature::Group,
            MetadataAction::Ignored,
            "archive mode requests group preservation; Windows portable transfers do not apply POSIX groups"@,
        ),
        (
            MetadataFeature::Device,
            MetadataAction::Rejected,
            "archive mode requests device/special files; this implementation does not create device nodes on Windows"@,
        ),
    ]
}

pub fn archive_mode_degradations(policy: MetadataPolicy) -> (r: Vec<MetadataDegradation>)
    ensures
        degradation_views(r@) == archive_degradations(policy),
{
    let mut out: Vec<MetadataDegradation> = Vec::new();
    let label = policy.as_str();
    let symlinks = join3(
        "archive mode requests symlink preservation; ",
        label,
        " transfers do not apply symlink preservation in the local executor yet",
    );
    push_degradation(&mut out, MetadataFeature::Symlink, MetadataAction::Degraded, symlinks.as_str());
    let permissions = join3(
        "archive mode requests POSIX permissions; ",
        label,
        " transfers do not apply POSIX permissions in the local executor yet",
    );
    push_degradation(&mut out, MetadataFeature::Permissions, MetadataAction::Degraded, permissions.as_str());
    push_degradation(
        &mut out,
        MetadataFeature::Owner,
        MetadataAction::Ignored,
        "archive mode requests owner preservation; Windows portable transfers do not apply POSIX owners",
    );
    push_degradation(
        &mut out,
        MetadataFeature::Group,
        MetadataAction::Ignored,
        "archive mode requests group preservation; Windows portable transfers do not apply POSIX groups",
    );
    push_degradation(
        &mut out,
        MetadataFeature::Device,
        MetadataAction::Rejected,
        "archive mode requests device/special files; this implementation does not create device nodes on Windows",
    );
    assert(degradation_views(out@) =~= archive_degradations(policy));
    out
}

/// What a local transfer does with the metadata that choosing `policy` asks for.
pub open spec fn policy_degradations(policy: MetadataPolicy) -> Seq<(MetadataFeature, MetadataAction, Seq<char>)> {
    match policy {
        MetadataPolicy::Portable => Seq::empty(),
        MetadataPolicy::Posix => seq![
            (MetadataFeature::Permissions, MetadataAction::Ignored, "metadata-policy=posix requests POSIX mode preservation; the local executor does not apply POSIX permissions yet"@),
            (MetadataFeature::Owner, MetadataAction::Ignored, "metadata-policy=posix requests POSIX owner preservation; the local executor does not apply POSIX owners yet"@),
            (MetadataFeature::Group, MetadataAction::Ignored, "metadata-policy=posix requests POSIX group preservation; the local executor does not apply POSIX groups yet"@),
            (MetadataFeature::Acl, MetadataAction::Ignored, "metadata-policy=posix requests POSIX ACL preservation; the local executor does not apply POSIX ACLs yet"@),
            (MetadataFeature::Xattr, MetadataAction::Ignored, "metadata-policy=posix requests extended attribute preservation; the local executor does not apply xattrs yet"@),
        ],
        MetadataPolicy::NtfsNative => seq![
            (MetadataFeature::SecurityDescriptor, MetadataAction::Degraded, "metadata-policy=ntfs-native requests NTFS security descriptor preservation; sidecar capture is available but restore is not wired into the local executor yet"@),
            (MetadataFeature::AlternateDataStream, MetadataAction::Degraded, "metadata-policy=ntfs-native requests alternate data stream preservation; named ADS payload copy is available for local Windows syncs and unavailable elsewhere"@),
            (MetadataFeature::CreationTime, MetadataAction::Ignored, "metadata-policy=ntfs-native requests creation time preservation; the local executor does not apply creation times yet"@),
            (MetadataFeature::WindowsAttributes, MetadataAction::Degraded, "metadata-policy=ntfs-native requests Windows file attribute preservation; the tested readonly/hidden/archive/system subset is restored while unsupported bits are degraded"@),
            (MetadataFeature::SparseFile, MetadataAction::Degraded, "metadata-policy=ntfs-native requests sparse file preservation; sparse detection is available but sparse range restore is not wired into the local executor yet"@),
            (MetadataFeature::ReparsePoint, MetadataAction::Rejected, "metadata-policy=ntfs-native requests reparse point preservation; unsafe reparse points are still rejected"@),
        ],
    }
}

pub fn metadata_policy_degradations(policy: MetadataPolicy) -> (r: Vec<MetadataDegradation>)
    ensures
        degradation_views(r@) == policy_degradations(policy),
{
    let mut out: Vec<MetadataDegradation> = Vec::new();
    match policy {
        MetadataPolicy::Portable => {},
        MetadataPolicy::Posix => {
            push_degradation(
                &mut out,
                MetadataFeature::Permissions,
                MetadataAction::Ignored,
                "metadata-policy=posix requests POSIX mode preservation; the local executor does not apply POSIX permissions yet",
            );
            push_degradation(
                &mut out,
                MetadataFeature::Owner,
                MetadataAction::Ignored,
                "metadata-policy=posix requests POSIX owner preservation; the local executor does not apply POSIX owners yet",
            );
            push_degradation(
                &mut out,
                MetadataFeature::Group,
                MetadataAction::Ignored,
                "metadata-policy=posix requests POSIX group preservation; the local executor does not apply POSIX groups yet",
            );
            push_degradation(
                &mut out,
                MetadataFeature::Acl,
                MetadataAction::Ignored,
                "metadata-policy=posix requests POSIX ACL preservation; the local executor does not apply POSIX ACLs yet",
            );
            push_degradation(
                &mut out,
                MetadataFeature::Xattr,
                MetadataAction::Ignored,
                "metadata-policy=posix requests extended attribute preservation; the local executor does not apply xattrs yet",
            );
        },
        MetadataPolicy::NtfsNative => {
            push_degradation(
                &mut out,
                MetadataFeature::SecurityDescriptor,
                MetadataAction::Degraded,
                "metadata-policy=ntfs-native requests NTFS security descriptor preservation; sidecar capture is available but restore is not wired into the local executor yet",
            );
            push_degradation(
                &mut out,
                MetadataFeature::AlternateDataStream,
                MetadataAction::Degraded,
                "metadata-policy=ntfs-native requests alternate data stream preservation; named ADS payload copy is available for local Windows syncs and unavailable elsewhere",
            );
            push_degradation(
                &mut out,
                MetadataFeature::CreationTime,
                MetadataAction::Ignored,
                "metadata-policy=ntfs-native requests creation time preservation; the local executor does not apply creation times yet",
            );
            push_degradation(
                &mut out,
                MetadataFeature::WindowsAttributes,
                MetadataAction::Degraded,
                "metadata-policy=ntfs-native requests Windows file attribute preservation; the tested readonly/hidden/archive/system subset is restored while unsupported bits are degraded",
            );
            push_degradation(
                &mut out,
                MetadataFeature::SparseFile,
                MetadataAction::Degraded,
                "metadata-policy=ntfs-native requests sparse file preservation; sparse detection is available but sparse range restore is not wired into the local executor yet",
            );
            push_degradation(
                &mut out,
                MetadataFeature::ReparsePoint,
                MetadataAction::Rejected,
                "metadata-policy=ntfs-native requests reparse point preservation; unsafe reparse points are still rejected",
            );
        },
    }
    assert(degradation_views(out@) =~= policy_degradations(policy));
    out
}

/// Whether every entry of `s` reports lost metadata.
pub open spec fn all_losses(s: Seq<(MetadataFeature, MetadataAction, Seq<char>)>) -> bool {
    forall|i: int| 0 <= i < s.len() ==> action_is_loss(#[trigger] s[i].1)
}

proof fn lemma_all_losses_concat(
    a: Seq<(MetadataFeature, MetadataAction, Seq<char>)>,
    b: Seq<(MetadataFeature, MetadataAction, Seq<char>)>,
)
    requires
        all_losses(a),
        all_losses(b),
    ensures
        all_losses(a + b),
{
    assert forall|i: int| 0 <= i < (a + b).len() implies action_is_loss(#[trigger] (a + b)[i].1) by {
        if i < a.len() {
            assert((a + b)[i] == a[i]);
        } else {
            assert((a + b)[i] == b[i - a.len()]);
        }
    }
}

/// Choosing a metadata policy other than `portable` only ever reports metadata that is lost.
pub proof fn lemma_policy_degradations_are_losses(policy: MetadataPolicy)
    ensures
        all_losses(policy_degradations(policy)),
{
}

/// Everything archive mode asks for beyond plain file copies is reported as lost.
pub proof fn lemma_archive_degradations_are_losses(policy: MetadataPolicy)
    ensures
        all_losses(archive_degradations(policy)),
{
}

/// The NTFS-native options only ever report metadata that is lost.
pub proof fn lemma_ntfs_request_degradations_are_losses(r: NtfsNativeMetadataRequest)
    ensures
        all_losses(ntfs_request_degradations(r)),
{
    let s = ntfs_request_degradations(r);
    assert forall|i: int| 0 <= i < s.len() implies action_is_loss(#[trigger] s[i].1) by {
        assert(s[i].1 is Degraded || s[i].1 is Ignored || s[i].1 is Rejected);
    }
}

/// A request without any POSIX metadata option reports nothing.
pub proof fn lemma_empty_posix_request_reports_nothing(r: PosixMetadataRequest, policy: MetadataPolicy)
    requires
        !posix_request_any(r),
    ensures
        posix_request_degradations(r, policy).len() == 0,
{
}

/// Whether the only lost metadata that `s` reports is the symlink mtime.
pub open spec fn only_symlink_mtime_lost(s: Seq<(MetadataFeature, MetadataAction, Seq<char>)>) -> bool {
    forall|i: int|
        0 <= i < s.len() && action_is_loss(#[trigger] s[i].1) ==> s[i].0
            == MetadataFeature::SymlinkMtime
}

proof fn lemma_only_symlink_mtime_lost_concat(
    a: Seq<(MetadataFeature, MetadataAction, Seq<char>)>,
    b: Seq<(MetadataFeature, MetadataAction, Seq<char>)>,
)
    requires
        only_symlink_mtime_lost(a),
        only_symlink_mtime_lost(b),
    ensures
        only_symlink_mtime_lost(a + b),
{
    assert forall|i: int|
        0 <= i < (a + b).len() && action_is_loss(#[trigger] (a + b)[i].1) implies (a
            + b)[i].0 == MetadataFeature::SymlinkMtime by {
        if i < a.len() {
            assert((a + b)[i] == a[i]);
        } else {
            assert((a + b)[i] == b[i - a.len()]);
        }
    }
}

/// With `--fake-super`, the only requested POSIX metadata that is lost is the symlink mtime.
pub proof fn lemma_fake_super_keeps_requested_metadata(r: PosixMetadataRequest, policy: MetadataPolicy)
    requires
        r.fake_super,
    ensures
        only_symlink_mtime_lost(posix_request_degradations(r, policy)),
{
    let a = posix_mode_entries(r, policy);
    let b = posix_id_entries(r);
    let c = posix_extended_entries(r);
    let d = posix_time_entries(r);
    let e = posix_mapping_entries(r);
    assert(only_symlink_mtime_lost(a));
    assert(only_symlink_mtime_lost(b));
    assert(only_symlink_mtime_lost(c));
    assert(only_symlink_mtime_lost(d));
    assert(only_symlink_mtime_lost(e));
    lemma_only_symlink_mtime_lost_concat(a, b);
    lemma_only_symlink_mtime_lost_concat(a + b, c);
    lemma_only_symlink_mtime_lost_concat(a + b + c, d);
    lemma_only_symlink_mtime_lost_concat(a + b + c + d, e);
}

} // verus!
