//! Short-term credentials for an assumed role.

use crate::error::{RunError, RunErrorView};
use crate::profile::{
    LongTermProfile, LongTermProfileView, ShortTermProfile, ShortTermProfileView, identity_of,
};
use crate::sts::config::CommonStsConfig;
use crate::sts::{
    Role, ShortTermCredentials, StsOutput, StsOutputView, StsRequest, StsRequestView,
    plain_request, request_without_role,
};
use crate::text::{chars_of, is_suffix, join};
use vstd::prelude::*;

verus! {

/// A request to assume a role.
#[derive(Debug, Default, Clone)]
pub struct AssumeRole {
    /// The ARN of the role.
    pub role_arn: String,
    /// The session name under which the role is assumed.
    pub role_name: String,
    pub config: CommonStsConfig,
}

/// For how many seconds the credentials of an assumed role stay valid where
/// the settings name no duration: one hour.
pub const ASSUME_ROLE_DEFAULT_DURATION: i32 = 3600;

/// Whether `c` separates the segments of an ARN.
pub open spec fn is_arn_separator(c: char) -> bool {
    c == ':' || c == '/'
}

/// The segments of `arn`: what stands between its separators, empty
/// segments included. An ARN with n separators has n + 1 segments.
pub open spec fn arn_segments(arn: Seq<char>) -> Seq<Seq<char>>
    decreases arn.len(),
{
    if arn.len() == 0 {
        seq![Seq::empty()]
    } else {
        let before = arn_segments(arn.drop_last());
        if is_arn_separator(arn.last()) {
            before.push(Seq::empty())
        } else {
            before.drop_last().push(before.last().push(arn.last()))
        }
    }
}

/// Segments that identify no role and are left out of a profile name:
/// `arn`, the partition, the service and the region.
pub const ARN_PREFIX_SEGMENTS: usize = 4;

/// `segments` without its first four.
pub open spec fn role_segments(segments: Seq<Seq<char>>) -> Seq<Seq<char>> {
    if segments.len() > ARN_PREFIX_SEGMENTS {
        segments.subrange(ARN_PREFIX_SEGMENTS as int, segments.len() as int)
    } else {
        Seq::empty()
    }
}

/// What of `arn` goes into a profile name: its segments from the fifth on,
/// joined by hyphens.
pub open spec fn arn_tail(arn: Seq<char>) -> Seq<char> {
    join(role_segments(arn_segments(arn)), seq!['-'])
}

/// The name under which the credentials of an assumed role are stored.
pub open spec fn assume_role_profile_name(
    profile: Seq<char>,
    role_arn: Seq<char>,
    role_name: Seq<char>,
    suffix: Seq<char>,
) -> Seq<char> {
    profile + seq!['_'] + arn_tail(role_arn) + seq!['-'] + role_name + seq!['_'] + suffix
}

/// The name under which the credentials of an assumed role are stored ends
/// with the short-term suffix, so it is the name of no long-term profile
/// that the settings accept.
pub proof fn lemma_assume_role_name_ends_with_suffix(
    profile: Seq<char>,
    role_arn: Seq<char>,
    role_name: Seq<char>,
    suffix: Seq<char>,
    long_term: Seq<char>,
)
    ensures
        is_suffix(suffix, assume_role_profile_name(profile, role_arn, role_name, suffix)),
        !is_suffix(suffix, long_term) ==> assume_role_profile_name(
            profile,
            role_arn,
            role_name,
            suffix,
        ) != long_term,
{
    let name = assume_role_profile_name(profile, role_arn, role_name, suffix);
    assert(name.subrange(name.len() - suffix.len(), name.len() as int) =~= suffix);
}

/// What is asked of the issuing service to assume a role: the role and the
/// session name of the request; the keys and the device of the long-term
/// profile; the MFA code; and the configured duration, or 3600 seconds where
/// none is configured.
pub proof fn lemma_assume_role_request(
    cmd: &AssumeRole,
    mfa_token: Seq<char>,
    lt_profile: LongTermProfileView,
)
    ensures
        cmd.request_for(mfa_token, lt_profile) == (StsRequestView {
            access_key: lt_profile.access_key,
            secret_key: lt_profile.secret_key,
            region: cmd.config.sts_region@,
            serial_number: lt_profile.mfa_device,
            token_code: mfa_token,
            duration_seconds: match cmd.config.duration {
                Some(seconds) => seconds,
                None => 3600i32,
            },
            role: Some((cmd.role_arn@, cmd.role_name@)),
        }),
{
}

fn is_separator(c: char) -> (r: bool)
    ensures
        r == is_arn_separator(c),
{
    c == ':' || c == '/'
}

/// Where each segment of `arn` begins and ends.
fn segment_bounds(arn: &Vec<char>) -> (bounds: Vec<(usize, usize)>)
    ensures
        bounds@.len() == arn_segments(arn@).len(),
        forall|k: int|
            0 <= k < bounds@.len() ==> {
                &&& 0 <= (#[trigger] bounds@[k]).0 <= bounds@[k].1 <= arn@.len()
                &&& arn_segments(arn@)[k] == arn@.subrange(bounds@[k].0 as int, bounds@[k].1 as int)
            },
{
    let mut bounds: Vec<(usize, usize)> = Vec::new();
    let mut start: usize = 0;
    let mut i: usize = 0;
    proof {
        assert(arn@.take(0) =~= Seq::empty());
        assert(arn_segments(arn@.take(0))[0] =~= arn@.subrange(0, 0));
    }
    while i < arn.len()
        invariant
            0 <= start <= i <= arn.len(),
            arn_segments(arn@.take(i as int)).len() == bounds@.len() + 1,
            arn_segments(arn@.take(i as int)).last() == arn@.subrange(start as int, i as int),
            forall|k: int|
                0 <= k < bounds@.len() ==> {
                    &&& 0 <= (#[trigger] bounds@[k]).0 <= bounds@[k].1 <= arn@.len()
                    &&& arn_segments(arn@.take(i as int))[k] == arn@.subrange(
                        bounds@[k].0 as int,
                        bounds@[k].1 as int,
                    )
                },
        decreases arn.len() - i,
    {
        let ghost before = arn_segments(arn@.take(i as int));
        proof {
            assert(arn@.take(i + 1).drop_last() =~= arn@.take(i as int));
            assert(arn@.take(i + 1).last() == arn@[i as int]);
        }
        if is_separator(arn[i]) {
            bounds.push((start, i));
            start = i + 1;
            proof {
                assert(arn_segments(arn@.take(i + 1)) == before.push(Seq::empty()));
                assert(arn@.subrange(start as int, i + 1) =~= Seq::empty());
            }
        } else {
            proof {
                assert(arn_segments(arn@.take(i + 1)) == before.drop_last().push(
                    before.last().push(arn@[i as int]),
                ));
                assert(arn@.subrange(start as int, i + 1) =~= before.last().push(arn@[i as int]));
            }
        }
        i += 1;
    }
    bounds.push((start, i));
    proof {
        assert(arn@.take(i as int) =~= arn@);
    }
    bounds
}

/// What of `arn` goes into a profile name.
fn tail_of_arn(arn: &str) -> (tail: String)
    ensures
        tail@ == arn_tail(arn@),
{
    let chars = chars_of(arn);
    let bounds = segment_bounds(&chars);
    let ghost segments = arn_segments(arn@);
    let mut tail = String::new();
    let mut k: usize = ARN_PREFIX_SEGMENTS;
    if bounds.len() <= ARN_PREFIX_SEGMENTS {
        return tail;
    }
    proof {
        assert(segments.subrange(ARN_PREFIX_SEGMENTS as int, k as int) =~= Seq::empty());
    }
    while k < bounds.len()
        invariant
            chars@ == arn@,
            segments == arn_segments(arn@),
            bounds@.len() == segments.len(),
            ARN_PREFIX_SEGMENTS <= k <= bounds@.len(),
            forall|j: int|
                0 <= j < bounds@.len() ==> {
                    &&& 0 <= (#[trigger] bounds@[j]).0 <= bounds@[j].1 <= arn@.len()
                    &&& segments[j] == arn@.subrange(bounds@[j].0 as int, bounds@[j].1 as int)
                },
            tail@ == join(segments.subrange(ARN_PREFIX_SEGMENTS as int, k as int), seq!['-']),
        decreases bounds.len() - k,
    {
        let ghost done = segments.subrange(ARN_PREFIX_SEGMENTS as int, k as int);
        let ghost more = segments.subrange(ARN_PREFIX_SEGMENTS as int, k + 1);
        if k > ARN_PREFIX_SEGMENTS {
            tail.append("-");
        }
        let bound = bounds[k];
        tail.append(arn.substring_char(bound.0, bound.1));
        proof {
            reveal_strlit("-");
            assert("-"@ =~= seq!['-']);
            assert(more.drop_last() =~= done);
            assert(more.last() == segments[k as int]);
            if k == ARN_PREFIX_SEGMENTS {
                assert(join(done, seq!['-']) =~= Seq::<char>::empty());
            }
            assert(tail@ =~= join(more, seq!['-']));
        }
        k += 1;
    }
    proof {
        assert(segments.subrange(ARN_PREFIX_SEGMENTS as int, k as int) =~= role_segments(segments));
    }
    tail
}

impl ShortTermCredentials for AssumeRole {
    const DEFAULT_DURATION: i32 = ASSUME_ROLE_DEFAULT_DURATION;

    open spec fn profile_name_text(&self) -> Seq<char> {
        assume_role_profile_name(
            self.config.profile_name@,
            self.role_arn@,
            self.role_name@,
            self.config.short_term_suffix@,
        )
    }

    fn short_profile_name(&self) -> (name: String) {
        let tail = tail_of_arn(self.role_arn.as_str());
        let mut name = self.config.profile_name.clone();
        name.append("_");
        name.append(tail.as_str());
        name.append("-");
        name.append(self.role_name.as_str());
        name.append("_");
        name.append(self.config.short_term_suffix.as_str());
        proof {
            reveal_strlit("-");
            reveal_strlit("_");
            assert("-"@ =~= seq!['-']);
            assert("_"@ =~= seq!['_']);
        }
        name
    }

    open spec fn settings(&self) -> CommonStsConfig {
        self.config
    }

    fn config(&self) -> (config: &CommonStsConfig) {
        &self.config
    }

    open spec fn request_for(
        &self,
        mfa_token: Seq<char>,
        lt_profile: LongTermProfileView,
    ) -> StsRequestView {
        StsRequestView {
            role: Some((self.role_arn@, self.role_name@)),
            ..plain_request(self.config, ASSUME_ROLE_DEFAULT_DURATION, mfa_token, lt_profile)
        }
    }

    fn request(&self, mfa_token: String, lt_profile: &LongTermProfile) -> (request: StsRequest) {
        let mut request = request_without_role(
            &self.config,
            ASSUME_ROLE_DEFAULT_DURATION,
            mfa_token,
            lt_profile,
        );
        request.role = Some(
            Role { arn: self.role_arn.clone(), session_name: self.role_name.clone() },
        );
        request
    }

    /// The identity carries the role ARN that was asked for, not one that
    /// the service sends back, and the role identifier exactly as the
    /// service sent it.
    open spec fn identity_from(&self, output: StsOutputView) -> Result<
        ShortTermProfileView,
        RunErrorView,
    > {
        match identity_of(output.credentials) {
            Ok(identity) => Ok(
                ShortTermProfileView {
                    assumed_role_arn: Some(self.role_arn@),
                    assumed_role_id: output.assumed_role_id,
                    ..identity
                },
            ),
            Err(error) => Err(error),
        }
    }

    fn receive(&self, output: StsOutput) -> (identity: Result<ShortTermProfile, RunError>) {
        let mut identity = ShortTermProfile::try_from(output.credentials)?;
        identity.assumed_role_arn = Some(self.role_arn.clone());
        identity.assumed_role_id = output.assumed_role_id;
        Ok(identity)
    }
}

} // verus!
