use vstd::prelude::*;
use vstd::string::StringExecFns;

use crate::chmod::{parse_chmod, ChmodRule, ChmodRules};
use crate::diagnostics::{Report, Severity};
use crate::fs::memory_fs::lemma_filter_step;
use crate::plan::modes::{cli_preserve_group, cli_preserve_owner, cli_preserve_permissions};
use crate::plan::options::CliOptions;
use crate::policy::{
    archive_degradations, archive_mode_degradations, core_error_text, degradation_views,
    posix_request_degradations, MetadataDegradation, MetadataFeature, MetadataPolicy,
    PosixMetadataRequest, RsyncCoreError,
};
use crate::remote::flist::TransferDirection;

verus! {

/// The chmod rules of a transfer, or the report of why `--chmod` does not parse.
pub open spec fn chmod_outcome(chmod: Option<String>) -> (
    Option<Seq<ChmodRule>>,
    Seq<(Severity, Seq<char>, Seq<char>, Option<Seq<char>>)>,
) {
    match chmod {
        None => (None, Seq::empty()),
        Some(c) => match parse_chmod(c@) {
            Ok(rules) => (Some(rules), Seq::empty()),
            Err(reason) => (
                None,
                seq![
                    (
                        Severity::Error,
                        "E_CHMOD"@,
                        "invalid argument `"@ + "chmod"@ + "`: "@ + (reason + ": `"@ + c@ + "`"@),
                        None,
                    ),
                ],
            ),
        },
    }
}

/// The chmod rules of a transfer; a `--chmod` that does not parse is reported.
pub fn parse_chmod_rules(o: &CliOptions, report: &mut Report) -> (r: Option<ChmodRules>)
    ensures
        match r {
            Some(rules) => chmod_outcome(o.chmod).0 == Some(rules@),
            None => chmod_outcome(o.chmod).0 is None,
        },
        final(report)@ == old(report)@ + chmod_outcome(o.chmod).1,
{
    let chmod = match &o.chmod {
        None => {
            assert(old(report)@ + Seq::empty() =~= old(report)@);
            return None;
        },
        Some(c) => c,
    };
    match ChmodRules::parse(chmod.as_str()) {
        Ok(rules) => {
            assert(old(report)@ + Seq::empty() =~= old(report)@);
            Some(rules)
        },
        Err(e) => {
            let message = e.message();
            report.error("E_CHMOD", message.as_str());
            assert(report@ =~= old(report)@ + chmod_outcome(o.chmod).1);
            None
        },
    }
}

/// Whether an archive-mode degradation concerns a kind of metadata the options turn off.
pub open spec fn turned_off(o: CliOptions, feature: MetadataFeature) -> bool {
    o.no_permissions && feature == MetadataFeature::Permissions || o.no_owner && feature
        == MetadataFeature::Owner || o.no_group && feature == MetadataFeature::Group
        || o.no_devices && feature == MetadataFeature::Device || o.no_specials && feature
        == MetadataFeature::SpecialFile
}

/// What archive mode under `policy` gives up, without what the options turn off.
pub open spec fn archive_degradations_for(o: CliOptions, policy: MetadataPolicy) -> Seq<
    (MetadataFeature, crate::policy::MetadataAction, Seq<char>),
> {
    archive_degradations(policy).filter(
        |d: (MetadataFeature, crate::policy::MetadataAction, Seq<char>)| !turned_off(o, d.0),
    )
}

/// What archive mode gives up under `policy`, without the kinds of metadata the options turn
/// off.
pub fn archive_mode_degradations_for_cli(o: &CliOptions, policy: MetadataPolicy) -> (r: Vec<
    MetadataDegradation,
>)
    ensures
        degradation_views(r@) == archive_degradations_for(*o, policy),
{
    let all = archive_mode_degradations(policy);
    let ghost av = degradation_views(all@);
    let ghost keep = |d: (MetadataFeature, crate::policy::MetadataAction, Seq<char>)|
        !turned_off(*o, d.0);
    let mut out: Vec<MetadataDegradation> = Vec::new();
    let mut i: usize = 0;
    assert(av.take(0).filter(keep) =~= Seq::empty());
    assert(degradation_views(out@) =~= av.take(0).filter(keep));
    while i < all.len()
        invariant
            i <= all@.len(),
            av == degradation_views(all@),
            keep == (|d: (MetadataFeature, crate::policy::MetadataAction, Seq<char>)|
                !turned_off(*o, d.0)),
            degradation_views(out@) == av.take(i as int).filter(keep),
        decreases all.len() - i,
    {
        proof {
            lemma_filter_step(av, i as int, keep);
        }
        let f = all[i].feature;
        let off = o.no_permissions && f == MetadataFeature::Permissions || o.no_owner && f
            == MetadataFeature::Owner || o.no_group && f == MetadataFeature::Group || o.no_devices
            && f == MetadataFeature::Device || o.no_specials && f == MetadataFeature::SpecialFile;
        assert(av[i as int] == all@[i as int]@);
        if !off {
            let ghost before = degradation_views(out@);
            let d = MetadataDegradation::new(all[i].feature, all[i].action, all[i].message.as_str());
            out.push(d);
            assert(degradation_views(out@) =~= before.push(av[i as int]));
        }
        i = i + 1;
    }
    assert(av.take(av.len() as int) =~= av);
    out
}

/// The POSIX metadata a transfer's options ask for.
pub open spec fn posix_request_of(o: CliOptions) -> PosixMetadataRequest {
    PosixMetadataRequest {
        permissions: (o.preserve_permissions || o.archive) && !o.no_permissions,
        owner: o.preserve_owner || (o.archive && !o.no_owner),
        group: o.preserve_group || (o.archive && !o.no_group),
        numeric_ids: o.numeric_ids,
        chmod: o.chmod is Some,
        executability: o.executability,
        symlink_mtime: o.archive && !o.omit_link_times,
        acls: o.acls,
        xattrs: o.xattrs,
        fake_super: o.fake_super,
        atimes: o.atimes,
        crtimes: o.crtimes,
        omit_dir_times: o.omit_dir_times,
        user_map: o.user_maps@.len() > 0,
        group_map: o.group_maps@.len() > 0,
        chown: o.chown is Some,
    }
}

/// The POSIX metadata a transfer's options ask for.
pub fn posix_metadata_request_from_cli(o: &CliOptions) -> (r: PosixMetadataRequest)
    ensures
        r == posix_request_of(*o),
{
    PosixMetadataRequest {
        permissions: cli_preserve_permissions(o),
        owner: cli_preserve_owner(o),
        group: cli_preserve_group(o),
        numeric_ids: o.numeric_ids,
        chmod: o.chmod.is_some(),
        executability: o.executability,
        symlink_mtime: o.archive && !o.omit_link_times,
        acls: o.acls,
        xattrs: o.xattrs,
        fake_super: o.fake_super,
        atimes: o.atimes,
        crtimes: o.crtimes,
        omit_dir_times: o.omit_dir_times,
        user_map: o.user_maps.len() > 0,
        group_map: o.group_maps.len() > 0,
        chown: o.chown.is_some(),
    }
}

/// The POSIX metadata a plan asks for: on a remote-shell push, which hands only permissions,
/// numeric ids and symlink times to the peer, the rest is left out.
pub open spec fn plan_posix_request(
    o: CliOptions,
    remote_direction: Option<TransferDirection>,
    daemon_direction: Option<TransferDirection>,
) -> PosixMetadataRequest {
    let r = posix_request_of(o);
    if daemon_direction is None && remote_direction == Some(TransferDirection::Push) {
        PosixMetadataRequest {
            chmod: false,
            executability: false,
            owner: false,
            group: false,
            acls: false,
            xattrs: false,
            fake_super: false,
            atimes: false,
            crtimes: false,
            omit_dir_times: false,
            user_map: false,
            group_map: false,
            chown: false,
            ..r
        }
    } else {
        r
    }
}

/// What a plan gives up of the POSIX metadata it asks for.
pub fn posix_metadata_degradations_for_plan(
    o: &CliOptions,
    policy: MetadataPolicy,
    remote_direction: Option<TransferDirection>,
    daemon_direction: Option<TransferDirection>,
) -> (r: Vec<MetadataDegradation>)
    ensures
        degradation_views(r@) == posix_request_degradations(
            plan_posix_request(*o, remote_direction, daemon_direction),
            policy,
        ),
{
    let mut request = posix_metadata_request_from_cli(o);
    if daemon_direction.is_none() && remote_direction == Some(TransferDirection::Push) {
        request.chmod = false;
        request.executability = false;
        request.owner = false;
        request.group = false;
        request.acls = false;
        request.xattrs = false;
        request.fake_super = false;
        request.atimes = false;
        request.crtimes = false;
        request.omit_dir_times = false;
        request.user_map = false;
        request.group_map = false;
        request.chown = false;
    }
    request.degradations(policy)
}

/// The metadata choices of a plan, as its summary reads them.
pub struct MetadataPlan {
    pub preserve_permissions: bool,
    pub preserve_owner: bool,
    pub preserve_group: bool,
    pub preserve_executability: bool,
    pub preserve_acls: bool,
    pub preserve_xattrs: bool,
    pub hard_links: bool,
    pub fake_super: bool,
    pub omit_dir_times: bool,
    pub atimes: bool,
    pub crtimes: bool,
    pub omit_link_times: bool,
    pub numeric_ids: bool,
    pub chmod: Option<String>,
    pub user_maps: Vec<String>,
    pub group_maps: Vec<String>,
    pub chown: Option<String>,
}

/// The name of each metadata choice a plan makes, with whether it makes it, in summary order.
pub open spec fn summary_choices(m: MetadataPlan) -> Seq<(bool, Seq<char>)> {
    seq![
        (m.preserve_permissions, "perms"@),
        (m.preserve_owner, "owner"@),
        (m.preserve_group, "group"@),
        (m.preserve_executability, "executability"@),
        (m.preserve_acls, "acls"@),
        (m.preserve_xattrs, "xattrs"@),
        (m.hard_links, "hard-links"@),
        (m.fake_super, "fake-super"@),
        (m.omit_dir_times, "omit-dir-times"@),
        (m.atimes, "atimes"@),
        (m.crtimes, "crtimes"@),
        (m.omit_link_times, "omit-link-times"@),
        (m.numeric_ids, "numeric-ids"@),
        (m.chmod is Some, "chmod"@),
        (m.user_maps@.len() > 0, "usermap"@),
        (m.group_maps@.len() > 0, "groupmap"@),
        (m.chown is Some, "chown"@),
    ]
}

/// The names of the choices made, in order.
pub open spec fn chosen_names(choices: Seq<(bool, Seq<char>)>) -> Seq<Seq<char>>
    decreases choices.len(),
{
    if choices.len() == 0 {
        Seq::empty()
    } else if choices.last().0 {
        chosen_names(choices.drop_last()).push(choices.last().1)
    } else {
        chosen_names(choices.drop_last())
    }
}

/// Names joined with commas.
pub open spec fn comma_joined(names: Seq<Seq<char>>) -> Seq<char>
    decreases names.len(),
{
    if names.len() == 0 {
        Seq::empty()
    } else if names.len() == 1 {
        names[0]
    } else {
        comma_joined(names.drop_last()) + ","@ + names.last()
    }
}

/// The metadata summary of a plan: the names of its choices joined with commas, or `none`.
pub open spec fn metadata_summary(m: MetadataPlan) -> Seq<char> {
    let names = chosen_names(summary_choices(m));
    if names.len() == 0 {
        "none"@
    } else {
        comma_joined(names)
    }
}

/// The metadata summary of a plan.
pub fn posix_metadata_summary(m: &MetadataPlan) -> (r: String)
    ensures
        r@ == metadata_summary(*m),
{
    let choices: Vec<(bool, &'static str)> = vec![
        (m.preserve_permissions, "perms"),
        (m.preserve_owner, "owner"),
        (m.preserve_group, "group"),
        (m.preserve_executability, "executability"),
        (m.preserve_acls, "acls"),
        (m.preserve_xattrs, "xattrs"),
        (m.hard_links, "hard-links"),
        (m.fake_super, "fake-super"),
        (m.omit_dir_times, "omit-dir-times"),
        (m.atimes, "atimes"),
        (m.crtimes, "crtimes"),
        (m.omit_link_times, "omit-link-times"),
        (m.numeric_ids, "numeric-ids"),
        (m.chmod.is_some(), "chmod"),
        (m.user_maps.len() > 0, "usermap"),
        (m.group_maps.len() > 0, "groupmap"),
        (m.chown.is_some(), "chown"),
    ];
    let ghost cv = choices@.map_values(|p: (bool, &str)| (p.0, p.1@));
    assert(cv =~= summary_choices(*m));
    let mut out = String::new();
    let mut count: usize = 0;
    let mut i: usize = 0;
    assert(cv.take(0) =~= Seq::<(bool, Seq<char>)>::empty());
    while i < choices.len()
        invariant
            i <= choices@.len(),
            cv == choices@.map_values(|p: (bool, &str)| (p.0, p.1@)),
            count == chosen_names(cv.take(i as int)).len(),
            count <= i,
            out@ == comma_joined(chosen_names(cv.take(i as int))),
        decreases choices.len() - i,
    {
        let (chosen, name) = choices[i];
        assert(cv[i as int] == (chosen, name@));
        assert(cv.take(i + 1).drop_last() =~= cv.take(i as int));
        let ghost prev = chosen_names(cv.take(i as int));
        if chosen {
            assert(chosen_names(cv.take(i + 1)) == prev.push(name@));
            assert(prev.push(name@).drop_last() =~= prev);
            if count > 0 {
                out.append(",");
            } else {
                assert(out@ =~= Seq::<char>::empty());
            }
            out.append(name);
            count = count + 1;
            assert(out@ =~= comma_joined(chosen_names(cv.take(i + 1))));
        }
        i = i + 1;
    }
    assert(cv.take(cv.len() as int) =~= cv);
    if count == 0 {
        return String::from_str("none");
    }
    out
}

} // verus!
