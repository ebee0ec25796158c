//! A user's aggregated GitHub counters and the rank derived from them.

use vstd::prelude::*;

use super::user_info;
use super::GithubError;
use crate::codec::{
    decode_fields, encode_fields, field_i64, field_str, field_u64, field_views, fields_bytes,
    has_shape, kind_of, encoded_at, occurs_at, Field, FieldKind, FieldView,
};
use crate::utils::{MonitorTime, SystemTimeWrapper, NANOS_PER_SEC};

verus! {

/// Weights of the counters in the activity score, in hundredths.
pub const COMMITS_WEIGHT: i128 = 165;
pub const CONTRIBS_WEIGHT: i128 = 165;
pub const ISSUES_WEIGHT: i128 = 100;
pub const STARS_WEIGHT: i128 = 75;
pub const PRS_WEIGHT: i128 = 50;
pub const FOLLOWERS_WEIGHT: i128 = 45;
pub const REPO_WEIGHT: i128 = 100;

/// Upper bounds (exclusive) of the normalized score for each letter.
pub const RANK_S_VALUE: u8 = 1;
pub const RANK_DOUBLE_A_VALUE: u8 = 25;
pub const RANK_A2_VALUE: u8 = 45;
pub const RANK_A3_VALUE: u8 = 60;
pub const RANK_B_VALUE: u8 = 100;

/// A letter grade and the normalized score (0 to 100) it was read from.
#[derive(Debug, Clone, PartialEq, Eq)]
pub struct Rank {
    pub level: String,
    pub score: u8,
}

pub struct RankView {
    pub level: Seq<char>,
    pub score: u8,
}

impl View for Rank {
    type V = RankView;

    open spec fn view(&self) -> RankView {
        RankView { level: self.level@, score: self.score }
    }
}

/// The letter for a normalized score: the lower the score, the better.
pub open spec fn level_of(score: u8) -> Seq<char> {
    if score < 1 {
        "S+"@
    } else if score < 25 {
        "S"@
    } else if score < 45 {
        "A++"@
    } else if score < 60 {
        "A+"@
    } else {
        "B+"@
    }
}

impl Rank {
    /// The rank for a normalized score.
    pub fn from_score(score: u8) -> (r: Rank)
        ensures
            r@ == (RankView { level: level_of(score), score }),
    {
        let level = if score < RANK_S_VALUE {
            "S+"
        } else if score < RANK_DOUBLE_A_VALUE {
            "S"
        } else if score < RANK_A2_VALUE {
            "A++"
        } else if score < RANK_A3_VALUE {
            "A+"
        } else {
            "B+"
        };
        Rank { level: String::from_str(level), score }
    }

    /// The rank before any score is known: "C" with score 0.
    pub fn unranked() -> (r: Rank)
        ensures
            r@ == (RankView { level: "C"@, score: 0 }),
    {
        Rank { level: String::from_str("C"), score: 0 }
    }
}

impl Default for Rank {
    fn default() -> (r: Rank)
        ensures
            r@ == (RankView { level: "C"@, score: 0 }),
    {
        Rank::unranked()
    }
}

/// A user's aggregated counters, their rank, and when they were gathered.
#[derive(Debug, Clone)]
pub struct UserGithubStats {
    pub login: String,
    pub name: String,
    pub stars: i64,
    pub commits: i64,
    pub repos: i64,
    pub prs: i64,
    pub issues: i64,
    pub contribs: i64,
    pub followers: i64,
    pub rank: Rank,
    pub create_at: SystemTimeWrapper,
}

pub struct UserGithubStatsView {
    pub login: Seq<char>,
    pub name: Seq<char>,
    pub stars: i64,
    pub commits: i64,
    pub repos: i64,
    pub prs: i64,
    pub issues: i64,
    pub contribs: i64,
    pub followers: i64,
    pub rank: RankView,
    pub create_at: SystemTimeWrapper,
}

impl View for UserGithubStats {
    type V = UserGithubStatsView;

    open spec fn view(&self) -> UserGithubStatsView {
        UserGithubStatsView {
            login: self.login@,
            name: self.name@,
            stars: self.stars,
            commits: self.commits,
            repos: self.repos,
            prs: self.prs,
            issues: self.issues,
            contribs: self.contribs,
            followers: self.followers,
            rank: self.rank@,
            create_at: self.create_at,
        }
    }
}

impl UserGithubStatsView {
    pub open spec fn wf(&self) -> bool {
        self.create_at.wf()
    }
}

/// The activity score in ten-thousandths: each counter times its weight
/// (in hundredths), summed, over 100.
pub open spec fn weighted_score_spec(
    commits: int,
    contribs: int,
    issues: int,
    stars: int,
    prs: int,
    followers: int,
    repos: int,
) -> int {
    commits * 165 + contribs * 165 + issues * 100 + stars * 75 + prs * 50 + followers * 45 + repos
        * 100
}

impl UserGithubStatsView {
    pub open spec fn weighted_score(&self) -> int {
        weighted_score_spec(
            self.commits as int,
            self.contribs as int,
            self.issues as int,
            self.stars as int,
            self.prs as int,
            self.followers as int,
            self.repos as int,
        )
    }
}

/// The fields a stats value is encoded as, creation time first.
pub open spec fn stats_fields(v: UserGithubStatsView) -> Seq<FieldView> {
    seq![
        FieldView::U64(v.create_at.secs),
        FieldView::U64(v.create_at.nanos as u64),
        FieldView::Str(v.login),
        FieldView::Str(v.name),
        FieldView::I64(v.stars),
        FieldView::I64(v.commits),
        FieldView::I64(v.repos),
        FieldView::I64(v.prs),
        FieldView::I64(v.issues),
        FieldView::I64(v.contribs),
        FieldView::I64(v.followers),
        FieldView::Str(v.rank.level),
        FieldView::U64(v.rank.score as u64),
    ]
}

pub open spec fn stats_shape() -> Seq<FieldKind> {
    seq![
        FieldKind::U64,
        FieldKind::U64,
        FieldKind::Str,
        FieldKind::Str,
        FieldKind::I64,
        FieldKind::I64,
        FieldKind::I64,
        FieldKind::I64,
        FieldKind::I64,
        FieldKind::I64,
        FieldKind::I64,
        FieldKind::Str,
        FieldKind::U64,
    ]
}

/// The bytes a stats value is cached as.
pub open spec fn stats_bytes(v: UserGithubStatsView) -> Seq<u8> {
    fields_bytes(stats_fields(v))
}

fn stats_shape_vec() -> (r: Vec<FieldKind>)
    ensures
        r@ == stats_shape(),
{
    let r = vec![
        FieldKind::U64,
        FieldKind::U64,
        FieldKind::Str,
        FieldKind::Str,
        FieldKind::I64,
        FieldKind::I64,
        FieldKind::I64,
        FieldKind::I64,
        FieldKind::I64,
        FieldKind::I64,
        FieldKind::I64,
        FieldKind::Str,
        FieldKind::U64,
    ];
    assert(r@ =~= stats_shape());
    r
}

impl UserGithubStats {
    /// Builds the stats from the profile answer and the star total, with the
    /// rank not yet scored. The display name falls back to the login.
    pub fn from_response(
        data: user_info::ResponseData,
        stars: i64,
        now: SystemTimeWrapper,
    ) -> (r: Result<UserGithubStats, GithubError>)
        ensures
            data.user is None ==> r == Err::<UserGithubStats, GithubError>(GithubError::UserNotFound),
            data.user matches Some(u) ==> {
                let issues = u.open_issues.total_count + u.closed_issues.total_count;
                &&& (issues < i64::MIN || issues > i64::MAX) <==> r == Err::<UserGithubStats, GithubError>(GithubError::Overflow)
                &&& (i64::MIN <= issues <= i64::MAX) ==> r is Ok
                &&& r matches Ok(s) ==> {
                    &&& s.login@ == u.login@
                    &&& s.name@ == (match u.name {
                        Some(n) => n@,
                        None => u.login@,
                    })
                    &&& s.stars == stars
                    &&& s.commits == u.contributions_collection.total_commit_contributions
                    &&& s.repos == u.repositories.total_count
                    &&& s.prs == u.pull_requests.total_count
                    &&& s.issues == issues
                    &&& s.contribs == u.repositories_contributed_to.total_count
                    &&& s.followers == u.followers.total_count
                    &&& s.rank@ == (RankView { level: "C"@, score: 0 })
                    &&& s.create_at == now
                }
            },
    {
        let user = match data.user {
            Some(u) => u,
            None => return Err(GithubError::UserNotFound),
        };
        let issues = match user.open_issues.total_count.checked_add(user.closed_issues.total_count) {
            Some(n) => n,
            None => return Err(GithubError::Overflow),
        };
        let name = match user.name {
            Some(n) => n,
            None => user.login.clone(),
        };
        Ok(UserGithubStats {
            login: user.login,
            name,
            stars,
            commits: user.contributions_collection.total_commit_contributions,
            repos: user.repositories.total_count,
            prs: user.pull_requests.total_count,
            issues,
            contribs: user.repositories_contributed_to.total_count,
            followers: user.followers.total_count,
            rank: Rank::unranked(),
            create_at: now,
        })
    }

    /// The activity score in ten-thousandths (the score the rank is read
    /// from is this value over 10000).
    pub fn weighted_score(&self) -> (r: i128)
        ensures
            r == self@.weighted_score(),
    {
        self.commits as i128 * COMMITS_WEIGHT + self.contribs as i128 * CONTRIBS_WEIGHT
            + self.issues as i128 * ISSUES_WEIGHT + self.stars as i128 * STARS_WEIGHT
            + self.prs as i128 * PRS_WEIGHT + self.followers as i128 * FOLLOWERS_WEIGHT
            + self.repos as i128 * REPO_WEIGHT
    }

    /// Sets the rank from a normalized score; nothing else changes.
    pub fn update_rank(&mut self, normalized_score: u8)
        ensures
            final(self)@ == (UserGithubStatsView {
                rank: RankView { level: level_of(normalized_score), score: normalized_score },
                ..old(self)@
            }),
    {
        self.rank = Rank::from_score(normalized_score);
    }

    /// Encodes the stats for the cache, creation time first.
    pub fn encode(&self) -> (r: Vec<u8>)
        ensures
            r@ == stats_bytes(self@),
    {
        let fields = vec![
            Field::U64(self.create_at.secs),
            Field::U64(self.create_at.nanos as u64),
            Field::Str(self.login.clone()),
            Field::Str(self.name.clone()),
            Field::I64(self.stars),
            Field::I64(self.commits),
            Field::I64(self.repos),
            Field::I64(self.prs),
            Field::I64(self.issues),
            Field::I64(self.contribs),
            Field::I64(self.followers),
            Field::Str(self.rank.level.clone()),
            Field::U64(self.rank.score as u64),
        ];
        assert(field_views(fields@) =~= stats_fields(self@));
        encode_fields(&fields)
    }

    /// Decodes stats written by `encode`: bytes that begin with the encoding
    /// of a well-formed stats value decode to that value, and a value comes
    /// back only from bytes that begin with its encoding. Anything else is
    /// refused.
    pub fn decode(bytes: &Vec<u8>) -> (r: Option<UserGithubStats>)
        ensures
            r matches Some(s) ==> s@.wf() && occurs_at(stats_bytes(s@), bytes@, 0),
            forall|v: UserGithubStatsView| v.wf() && #[trigger] occurs_at(stats_bytes(v), bytes@, 0)
                ==> (r matches Some(s) && s@ == v),
    {
        let shape = stats_shape_vec();
        proof {
            assert forall|v: UserGithubStatsView| v.wf() && #[trigger] occurs_at(stats_bytes(v), bytes@, 0)
                implies encoded_at(stats_fields(v), stats_shape(), bytes@, 0) by {
                assert(has_shape(stats_fields(v), stats_shape())) by {
                    assert forall|i: int| 0 <= i < stats_fields(v).len() implies
                        #[trigger] kind_of(stats_fields(v)[i]) == stats_shape()[i] by {}
                }
            }
        }
        let (fs, _end) = match decode_fields(bytes, 0, &shape) {
            Some(d) => d,
            None => return None,
        };
        proof {
            assert forall|i: int| 0 <= i < fs@.len() implies
                #[trigger] kind_of(fs@[i]@) == stats_shape()[i] by {
                assert(field_views(fs@)[i] == fs@[i]@);
            }
        }
        let secs = field_u64(&fs[0]);
        let nanos = field_u64(&fs[1]);
        let score = field_u64(&fs[12]);
        if nanos >= NANOS_PER_SEC as u64 || score > 255 {
            return None;
        }
        let r = UserGithubStats {
            login: field_str(&fs[2]),
            name: field_str(&fs[3]),
            stars: field_i64(&fs[4]),
            commits: field_i64(&fs[5]),
            repos: field_i64(&fs[6]),
            prs: field_i64(&fs[7]),
            issues: field_i64(&fs[8]),
            contribs: field_i64(&fs[9]),
            followers: field_i64(&fs[10]),
            rank: Rank { level: field_str(&fs[11]), score: score as u8 },
            create_at: SystemTimeWrapper { secs, nanos: nanos as u32 },
        };
        proof {
            assert(field_views(fs@)[0] == fs@[0]@);
            assert(field_views(fs@)[1] == fs@[1]@);
            assert(field_views(fs@)[2] == fs@[2]@);
            assert(field_views(fs@)[3] == fs@[3]@);
            assert(field_views(fs@)[4] == fs@[4]@);
            assert(field_views(fs@)[5] == fs@[5]@);
            assert(field_views(fs@)[6] == fs@[6]@);
            assert(field_views(fs@)[7] == fs@[7]@);
            assert(field_views(fs@)[8] == fs@[8]@);
            assert(field_views(fs@)[9] == fs@[9]@);
            assert(field_views(fs@)[10] == fs@[10]@);
            assert(field_views(fs@)[11] == fs@[11]@);
            assert(field_views(fs@)[12] == fs@[12]@);
            assert(field_views(fs@) =~= stats_fields(r@));
            assert forall|v: UserGithubStatsView| v.wf() && #[trigger] occurs_at(stats_bytes(v), bytes@, 0)
                implies r@ == v by {
                assert(field_views(fs@) == stats_fields(v));
                assert(field_views(fs@)[0] == fs@[0]@);
                assert(field_views(fs@)[1] == fs@[1]@);
                assert(field_views(fs@)[2] == fs@[2]@);
                assert(field_views(fs@)[3] == fs@[3]@);
                assert(field_views(fs@)[4] == fs@[4]@);
                assert(field_views(fs@)[5] == fs@[5]@);
                assert(field_views(fs@)[6] == fs@[6]@);
                assert(field_views(fs@)[7] == fs@[7]@);
                assert(field_views(fs@)[8] == fs@[8]@);
                assert(field_views(fs@)[9] == fs@[9]@);
                assert(field_views(fs@)[10] == fs@[10]@);
                assert(field_views(fs@)[11] == fs@[11]@);
                assert(field_views(fs@)[12] == fs@[12]@);
            }
        }
        Some(r)
    }
}

impl MonitorTime for UserGithubStats {
    fn create_at(&self) -> SystemTimeWrapper {
        self.create_at
    }
}

/// The activity score never decreases when counters grow: raising any one
/// counter (or several) while the others stay gives a score at least as
/// high.
pub proof fn lemma_weighted_score_monotone(a: UserGithubStatsView, b: UserGithubStatsView)
    requires
        a.commits <= b.commits,
        a.contribs <= b.contribs,
        a.issues <= b.issues,
        a.stars <= b.stars,
        a.prs <= b.prs,
        a.followers <= b.followers,
        a.repos <= b.repos,
    ensures
        a.weighted_score() <= b.weighted_score(),
{
}

} // verus!
