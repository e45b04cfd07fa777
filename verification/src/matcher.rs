//! The interest matcher: a pure function from one incoming event and the
//! configuration to the ordered list of matches. A match names one container
//! template of one satisfied interest; the supervisor later drives one
//! container run per match.
//!
//! The matching policy: the event's repository selects the first configured
//! repository with the same owner and name (an unknown repository yields no
//! matches and no error). On that repository, a commit event satisfies a
//! commit interest when the interest names no branch or names the event's
//! branch exactly (case-sensitive, no globbing); a release event satisfies
//! every release interest; cross-kind pairs never match. Every satisfied
//! interest contributes one match per container template, in declaration
//! order.

use vstd::prelude::*;

use crate::config::CommitInterest;
use crate::config::ContainerConfig;
use crate::config::Interest;
use crate::config::ReleaseInterest;
use crate::config::RepositoryConfig;
use crate::event::Event;
use crate::event::EventKind;

verus! {

/// One realized pairing of an incoming event with a satisfied interest and
/// one of its container templates, identified by position in the
/// configuration: `repo` indexes the configuration, `interest` indexes that
/// repository's interests, and `container` indexes that interest's container
/// templates.
#[derive(Clone, Copy, Debug, PartialEq, Eq, Structural)]
pub struct Match {
    pub repo: usize,
    pub interest: usize,
    pub container: usize,
}

/// Whether the event is about this repository: owner and name both equal.
pub open spec fn repo_applies(repo: RepositoryConfig, event: Event) -> bool {
    repo.owner@ == event.owner@ && repo.name@ == event.name@
}

/// The index of the first configured repository the event is about, if any.
pub open spec fn selected_repo(config: Seq<RepositoryConfig>, event: Event) -> Option<int>
    decreases config.len(),
{
    if config.len() == 0 {
        None
    } else if repo_applies(config[0], event) {
        Some(0)
    } else {
        match selected_repo(config.skip(1), event) {
            Some(i) => Some(i + 1),
            None => None,
        }
    }
}

/// Whether an event of this kind satisfies this interest.
pub open spec fn interest_applies(interest: Interest, kind: EventKind) -> bool {
    match interest {
        Interest::Commit(commit) => match kind {
            EventKind::Commit { branch } => match commit.branch {
                Some(required) => required@ == branch@,
                None => true,
            },
            EventKind::Release => false,
        },
        Interest::Release(_) => kind is Release,
    }
}

/// The matches one interest contributes: one per container template when the
/// interest is satisfied, in template declaration order, and none otherwise.
pub open spec fn interest_matches(
    interest: Interest,
    kind: EventKind,
    repo: int,
    index: int,
) -> Seq<Match> {
    if interest_applies(interest, kind) {
        Seq::new(
            interest.containers_spec().len(),
            |c: int|
                (Match {
                    repo: repo as usize,
                    interest: index as usize,
                    container: c as usize,
                }),
        )
    } else {
        Seq::empty()
    }
}

/// The matches contributed by the interests from position `index` on, in
/// declaration order.
pub open spec fn matches_from(
    interests: Seq<Interest>,
    kind: EventKind,
    repo: int,
    index: int,
) -> Seq<Match>
    decreases interests.len() - index,
{
    if index < 0 || index >= interests.len() {
        Seq::empty()
    } else {
        interest_matches(interests[index], kind, repo, index) + matches_from(
            interests,
            kind,
            repo,
            index + 1,
        )
    }
}

/// The full match list for one event against the configuration.
pub open spec fn matches_of(config: Seq<RepositoryConfig>, event: Event) -> Seq<Match> {
    match selected_repo(config, event) {
        None => Seq::empty(),
        Some(r) => matches_from(config[r].interests@, event.kind, r, 0),
    }
}

/// Whether an event of this kind satisfies this interest.
pub fn interest_applies_to(interest: &Interest, kind: &EventKind) -> (b: bool)
    ensures
        b == interest_applies(*interest, *kind),
{
    match interest {
        Interest::Commit(commit) => match kind {
            EventKind::Commit { branch } => match &commit.branch {
                Some(required) => required.eq(branch),
                None => true,
            },
            EventKind::Release => false,
        },
        Interest::Release(_) => match kind {
            EventKind::Release => true,
            EventKind::Commit { .. } => false,
        },
    }
}

/// If no repository before position `upto` applies, the selected repository
/// is the first applying one at or after `upto`, and `None` if `upto` is the
/// end and none applied.
proof fn lemma_selected_repo_scan(config: Seq<RepositoryConfig>, event: Event, upto: int)
    requires
        0 <= upto <= config.len(),
        forall|k: int| 0 <= k < upto ==> !repo_applies(config[k], event),
    ensures
        upto < config.len() && repo_applies(config[upto], event) ==> selected_repo(config, event)
            == Some(upto),
        upto == config.len() ==> selected_repo(config, event) is None,
    decreases upto,
{
    if upto > 0 {
        let tail = config.skip(1);
        assert(!repo_applies(config[0], event));
        assert(forall|k: int| 0 <= k < upto - 1 ==> tail[k] == config[k + 1]);
        lemma_selected_repo_scan(tail, event, upto - 1);
        if upto < config.len() {
            assert(tail[upto - 1] == config[upto]);
        }
    }
}

/// Resolves one event against the configuration to its ordered match list.
///
/// The result is exactly `matches_of(config@, *event)`: for the first
/// repository whose owner and name equal the event's, one `Match` per
/// container template of every satisfied interest, interests and templates
/// both in declaration order; empty when no configured repository is the
/// event's or no interest is satisfied.
pub fn match_event(event: &Event, config: &Vec<RepositoryConfig>) -> (matches: Vec<Match>)
    ensures
        matches@ == matches_of(config@, *event),
{
    let mut matches: Vec<Match> = Vec::new();

    let mut r: usize = 0;
    while r < config.len()
        invariant
            0 <= r <= config.len(),
            matches@.len() == 0,
            forall|k: int| 0 <= k < r ==> !repo_applies(config@[k], *event),
        decreases config.len() - r,
    {
        let repo = &config[r];
        if repo.owner.eq(&event.owner) && repo.name.eq(&event.name) {
            proof {
                lemma_selected_repo_scan(config@, *event, r as int);
            }
            let interests = &repo.interests;
            proof {
                assert(matches@ + matches_from(interests@, event.kind, r as int, 0)
                    =~= matches_from(interests@, event.kind, r as int, 0));
            }
            let mut i: usize = 0;
            while i < interests.len()
                invariant
                    0 <= i <= interests.len(),
                    r < config.len(),
                    interests == &config@[r as int].interests,
                    selected_repo(config@, *event) == Some(r as int),
                    matches@ + matches_from(interests@, event.kind, r as int, i as int)
                        == matches_of(config@, *event),
                decreases interests.len() - i,
            {
                let interest = &interests[i];
                if interest_applies_to(interest, &event.kind) {
                    let containers = interest.containers();
                    let ghost contribution = interest_matches(
                        interests@[i as int],
                        event.kind,
                        r as int,
                        i as int,
                    );
                    let ghost before = matches@;
                    let mut c: usize = 0;
                    while c < containers.len()
                        invariant
                            0 <= c <= containers.len(),
                            containers@ == interests@[i as int].containers_spec(),
                            interest_applies(interests@[i as int], event.kind),
                            contribution == interest_matches(
                                interests@[i as int],
                                event.kind,
                                r as int,
                                i as int,
                            ),
                            contribution.len() == containers@.len(),
                            i < interests.len(),
                            r < config.len(),
                            matches@ == before + contribution.take(c as int),
                        decreases containers.len() - c,
                    {
                        matches.push(
                            Match { repo: r, interest: i, container: c },
                        );
                        proof {
                            assert(contribution[c as int] == (Match {
                                repo: r,
                                interest: i,
                                container: c,
                            }));
                            assert(before + contribution.take(c + 1) =~= (before
                                + contribution.take(c as int)).push(contribution[c as int]));
                        }
                        c += 1;
                    }
                    proof {
                        assert(contribution.take(containers@.len() as int) =~= contribution);
                        assert(matches_from(interests@, event.kind, r as int, i as int)
                            == contribution + matches_from(
                            interests@,
                            event.kind,
                            r as int,
                            i as int + 1,
                        ));
                        assert((before + contribution) + matches_from(
                            interests@,
                            event.kind,
                            r as int,
                            i as int + 1,
                        ) =~= before + (contribution + matches_from(
                            interests@,
                            event.kind,
                            r as int,
                            i as int + 1,
                        )));
                    }
                } else {
                    proof {
                        assert(matches_from(interests@, event.kind, r as int, i as int)
                            == matches_from(interests@, event.kind, r as int, i as int + 1));
                    }
                }
                i += 1;
            }
            proof {
                assert(matches_from(interests@, event.kind, r as int, interests@.len() as int)
                    == Seq::<Match>::empty());
                assert(matches@ + Seq::<Match>::empty() =~= matches@);
            }
            return matches;
        }
        r += 1;
    }
    proof {
        lemma_selected_repo_scan(config@, *event, config@.len() as int);
        assert(matches@ =~= matches_of(config@, *event));
    }
    matches
}

/// Which matches occur: the event selected the match's repository, the
/// match's interest exists there and is satisfied by the event's kind, and
/// the match's container template exists on that interest.
pub open spec fn match_occurs(config: Seq<RepositoryConfig>, event: Event, m: Match) -> bool {
    &&& selected_repo(config, event) == Some(m.repo as int)
    &&& (m.interest as int) < config[m.repo as int].interests@.len()
    &&& interest_applies(config[m.repo as int].interests@[m.interest as int], event.kind)
    &&& (m.container as int) < config[m.repo as int].interests@[m.interest as int]
        .containers_spec().len()
}

/// A selected repository is a position in the configuration.
proof fn lemma_selected_repo_range(config: Seq<RepositoryConfig>, event: Event)
    ensures
        selected_repo(config, event) matches Some(r) ==> 0 <= r < config.len(),
    decreases config.len(),
{
    if config.len() > 0 && !repo_applies(config[0], event) {
        lemma_selected_repo_range(config.skip(1), event);
    }
}

/// Membership in the tail of the match list: a match from position `index`
/// on names one satisfied interest at or after `index` and one of its
/// container templates.
proof fn lemma_matches_from_contains(
    interests: Seq<Interest>,
    kind: EventKind,
    repo: int,
    index: int,
    m: Match,
)
    requires
        0 <= index <= interests.len(),
        0 <= repo <= usize::MAX,
        interests.len() <= usize::MAX,
    ensures
        matches_from(interests, kind, repo, index).contains(m) <==> {
            &&& m.repo == repo as usize
            &&& index <= m.interest < interests.len()
            &&& interest_applies(interests[m.interest as int], kind)
            &&& (m.container as int) < interests[m.interest as int].containers_spec().len()
        },
    decreases interests.len() - index,
{
    if index < interests.len() {
        lemma_matches_from_contains(interests, kind, repo, index + 1, m);
        let head = interest_matches(interests[index], kind, repo, index);
        let tail = matches_from(interests, kind, repo, index + 1);
        if (head + tail).contains(m) {
            let j = choose|j: int| 0 <= j < (head + tail).len() && (head + tail)[j] == m;
            if j < head.len() {
                assert(head[j] == m);
            } else {
                assert(tail[j - head.len()] == m);
            }
        }
        if head.contains(m) {
            let j = choose|j: int| 0 <= j < head.len() && head[j] == m;
            assert((head + tail)[j] == m);
        }
        if tail.contains(m) {
            let j = choose|j: int| 0 <= j < tail.len() && tail[j] == m;
            assert((head + tail)[head.len() + j] == m);
        }
        if m.repo == repo as usize && m.interest == index && interest_applies(
            interests[index],
            kind,
        ) && (m.container as int) < interests[index].containers_spec().len() {
            assert(head[m.container as int] == m);
        }
    }
}

/// A match is in the matcher's result exactly when it occurs: the result
/// holds one match per container template of every satisfied interest on the
/// selected repository, and nothing else.
pub proof fn lemma_match_occurs(config: Seq<RepositoryConfig>, event: Event, m: Match)
    requires
        config.len() <= usize::MAX,
    ensures
        matches_of(config, event).contains(m) <==> match_occurs(config, event, m),
{
    lemma_selected_repo_range(config, event);
    match selected_repo(config, event) {
        None => {}
        Some(r) => {
            assert(config[r].interests.len() == config[r].interests@.len());
            lemma_matches_from_contains(config[r].interests@, event.kind, r, 0, m);
        }
    }
}

/// A commit interest that names a branch is satisfied by a commit event
/// exactly when the event's branch equals the named one.
pub proof fn lemma_commit_named_branch(
    required: String,
    containers: Vec<ContainerConfig>,
    branch: String,
)
    ensures
        interest_applies(
            Interest::Commit(
                (CommitInterest { branch: Some(required), containers }),
            ),
            (EventKind::Commit { branch }),
        ) <==> required@ == branch@,
{
}

/// A commit interest that names no branch is satisfied by every commit
/// event, whatever its branch.
pub proof fn lemma_commit_any_branch(containers: Vec<ContainerConfig>, branch: String)
    ensures
        interest_applies(
            Interest::Commit((CommitInterest { branch: None, containers })),
            (EventKind::Commit { branch }),
        ),
{
}

/// Every release interest is satisfied by every release event.
pub proof fn lemma_release_always(interest: ReleaseInterest)
    ensures
        interest_applies(Interest::Release(interest), EventKind::Release),
{
}

/// Cross-kind pairs never match: a commit event satisfies no release
/// interest, and a release event satisfies no commit interest.
pub proof fn lemma_cross_kind_excluded(
    commit: CommitInterest,
    release: ReleaseInterest,
    branch: String,
)
    ensures
        !interest_applies(Interest::Release(release), (EventKind::Commit { branch })),
        !interest_applies(Interest::Commit(commit), EventKind::Release),
{
}

/// Matching is deterministic and order-preserving: any two match lists that
/// meet the matcher's contract for the same event and configuration are the
/// same sequence in the same order.
pub proof fn lemma_matching_deterministic(
    first: Seq<Match>,
    second: Seq<Match>,
    config: Seq<RepositoryConfig>,
    event: Event,
)
    requires
        first == matches_of(config, event),
        second == matches_of(config, event),
    ensures
        first == second,
{
}

} // verus!
