//! The live channels' reducers. A reader's page and the admin dashboard each
//! hold a state that server-sent events are folded into; opening the stream and
//! decoding events is the application's part, deciding what each event does to
//! the state is this module's.
use vstd::prelude::*;

use crate::model::CommentView;
use crate::text::{str_eq, string_from};

verus! {

/// Cap on the floating claps kept after a reaction event.
pub const MAX_CLAPS: usize = 40;

/// Per-topic cap on buffered live data points: only the most recent are kept.
pub const MAX_DATA_POINTS: usize = 256;

/// Cap on retained admin activity rows; older rows drop off the front.
pub const MAX_ACTIVITY: usize = 50;

/// The last `n` items of `s` (all of it when it is no longer).
pub open spec fn keep_last<T>(s: Seq<T>, n: nat) -> Seq<T> {
    if s.len() > n {
        s.skip(s.len() - n)
    } else {
        s
    }
}

/// Drop items off the front of `v` until at most `cap` remain.
pub fn trim_front<T>(v: &mut Vec<T>, cap: usize)
    ensures
        final(v)@ == keep_last(old(v)@, cap as nat),
{
    let ghost orig = v@;
    while v.len() > cap
        invariant
            v@.len() <= orig.len(),
            v@ == orig.skip(orig.len() - v@.len()),
            orig.len() > cap ==> v@.len() >= cap,
            orig.len() <= cap ==> v@ == orig,
        decreases v.len(),
    {
        let ghost before = v@;
        v.remove(0);
        proof {
            assert(v@ =~= before.drop_first());
            assert(v@ =~= orig.skip(orig.len() - v@.len()));
        }
    }
    proof {
        if orig.len() <= cap {
            assert(orig.skip(0) =~= orig);
        }
    }
}

// ------------------------------------------------------------------ reader

/// One floating clap to animate in; `id` is a monotonic nonce used as the
/// render key and to prune finished animations.
#[derive(Clone, Debug)]
pub struct ClapBurst {
    pub id: u64,
    pub kind: String,
}

/// An event of a post's live channel; `V` is the type of a data sample.
pub enum LiveEvent<V> {
    /// Distinct readers currently connected.
    Presence { count: i64 },
    /// A newly approved comment.
    Comment(CommentView),
    /// A reaction, with the post's new reaction total.
    Reaction { kind: String, total: i64 },
    /// One sample of a live data series.
    Data { topic: String, value: V },
}

/// Live state of a post as its reader sees it.
pub struct LiveState<V> {
    /// Distinct readers currently connected to this post.
    pub reading_now: i64,
    /// Approved comments pushed since the page loaded (deduped by id).
    pub live_comments: Vec<CommentView>,
    /// Claps awaiting or playing their float animation.
    pub claps: Vec<ClapBurst>,
    /// Authoritative reaction total from the latest reaction event.
    pub reaction_count: i64,
    /// The id given to the latest clap that arrived over the channel.
    pub next_clap_id: u64,
    /// Buffered data series keyed by topic, newest sample last.
    pub data_points: Vec<(String, Vec<V>)>,
}

/// Whether a comment with `id` is among `s`.
pub open spec fn has_comment_id(s: Seq<CommentView>, id: i64) -> bool {
    exists|i: int| 0 <= i < s.len() && (#[trigger] s[i]).id == id
}

/// `s` with `c` appended unless a comment with its id is already there.
pub open spec fn comment_merged(s: Seq<CommentView>, c: CommentView) -> Seq<CommentView> {
    if has_comment_id(s, c.id) {
        s
    } else {
        s.push(c)
    }
}

/// No two comments of `s` share an id.
pub open spec fn distinct_comment_ids(s: Seq<CommentView>) -> bool {
    forall|i: int, j: int| 0 <= i < j < s.len() ==> (#[trigger] s[i]).id != (#[trigger] s[j]).id
}

/// Whether a series for `topic` is among `s`.
pub open spec fn has_topic<V>(s: Seq<(String, Vec<V>)>, topic: Seq<char>) -> bool {
    exists|i: int| 0 <= i < s.len() && (#[trigger] s[i]).0@ == topic
}

/// The samples buffered for `topic` (none when it has no series).
pub open spec fn series_of<V>(s: Seq<(String, Vec<V>)>, topic: Seq<char>) -> Seq<V> {
    if has_topic(s, topic) {
        s[choose|i: int| 0 <= i < s.len() && (#[trigger] s[i]).0@ == topic].1@
    } else {
        seq![]
    }
}

/// The series have distinct topics and at most `MAX_DATA_POINTS` samples each.
pub open spec fn series_wf<V>(s: Seq<(String, Vec<V>)>) -> bool {
    &&& forall|i: int, j: int| 0 <= i < j < s.len() ==> (#[trigger] s[i]).0@ != (#[trigger] s[j]).0@
    &&& forall|i: int| 0 <= i < s.len() ==> (#[trigger] s[i]).1@.len() <= MAX_DATA_POINTS
}

/// Under distinct topics, the series at index `i` is the one for its topic.
pub proof fn lemma_series_at<V>(s: Seq<(String, Vec<V>)>, i: int)
    requires
        series_wf(s),
        0 <= i < s.len(),
    ensures
        has_topic(s, s[i].0@),
        series_of(s, s[i].0@) == s[i].1@,
{
    let t = s[i].0@;
    assert(has_topic(s, t));
    let j = choose|j: int| 0 <= j < s.len() && (#[trigger] s[j]).0@ == t;
    if j != i {
        if j < i {
            assert(s[j].0@ != s[i].0@);
        } else {
            assert(s[i].0@ != s[j].0@);
        }
    }
}

impl<V> LiveState<V> {
    /// The state's invariant: live comments have distinct ids, and each topic
    /// has one series of at most `MAX_DATA_POINTS` samples.
    pub open spec fn wf(&self) -> bool {
        &&& distinct_comment_ids(self.live_comments@)
        &&& series_wf(self.data_points@)
    }

    /// The samples buffered for `topic`.
    pub open spec fn series(&self, topic: Seq<char>) -> Seq<V> {
        series_of(self.data_points@, topic)
    }

    /// The inert state shown before the channel connects: no readers, no
    /// comments, no claps, no samples.
    pub fn new() -> (s: Self)
        ensures
            s.wf(),
            s.reading_now == 0,
            s.live_comments@.len() == 0,
            s.claps@.len() == 0,
            s.reaction_count == 0,
            s.next_clap_id == 0,
            s.data_points@.len() == 0,
    {
        LiveState {
            reading_now: 0,
            live_comments: Vec::new(),
            claps: Vec::new(),
            reaction_count: 0,
            next_clap_id: 0,
            data_points: Vec::new(),
        }
    }

    /// Add a comment unless one with its id is already shown: the echo of
    /// one's own just-approved comment, or a resend after a reconnect.
    pub fn merge_comment(&mut self, c: CommentView)
        requires
            old(self).wf(),
        ensures
            final(self).wf(),
            final(self).live_comments@ == comment_merged(old(self).live_comments@, c),
            final(self).reading_now == old(self).reading_now,
            final(self).claps@ == old(self).claps@,
            final(self).reaction_count == old(self).reaction_count,
            final(self).next_clap_id == old(self).next_clap_id,
            final(self).data_points@ == old(self).data_points@,
    {
        let mut found = false;
        let mut i: usize = 0;
        while i < self.live_comments.len()
            invariant
                0 <= i <= self.live_comments@.len(),
                found == (exists|j: int| 0 <= j < i && (#[trigger] self.live_comments@[j]).id == c.id),
            decreases self.live_comments.len() - i,
        {
            if self.live_comments[i].id == c.id {
                found = true;
            }
            i += 1;
        }
        if !found {
            let ghost before = self.live_comments@;
            self.live_comments.push(c);
            proof {
                assert forall|a: int, b: int|
                    0 <= a < b < self.live_comments@.len() implies (#[trigger] self.live_comments@[a]).id
                    != (#[trigger] self.live_comments@[b]).id by {
                    if b == before.len() {
                        assert(before[a] == self.live_comments@[a]);
                    } else {
                        assert(before[a] == self.live_comments@[a]);
                        assert(before[b] == self.live_comments@[b]);
                    }
                }
            }
        }
    }

    /// Append one sample to `topic`'s series, keeping its most recent
    /// `MAX_DATA_POINTS`; every other series is unchanged.
    pub fn push_sample(&mut self, topic: String, value: V)
        requires
            old(self).wf(),
        ensures
            final(self).wf(),
            forall|t: Seq<char>|
                #[trigger] final(self).series(t) == if t == topic@ {
                    keep_last(old(self).series(t).push(value), MAX_DATA_POINTS as nat)
                } else {
                    old(self).series(t)
                },
            forall|t: Seq<char>|
                #[trigger] has_topic(final(self).data_points@, t) == (t == topic@ || has_topic(
                    old(self).data_points@,
                    t,
                )),
            final(self).reading_now == old(self).reading_now,
            final(self).live_comments@ == old(self).live_comments@,
            final(self).claps@ == old(self).claps@,
            final(self).reaction_count == old(self).reaction_count,
            final(self).next_clap_id == old(self).next_clap_id,
    {
        let ghost old_data = self.data_points@;
        let mut idx: usize = 0;
        let mut found = false;
        while idx < self.data_points.len() && !found
            invariant
                0 <= idx <= self.data_points@.len(),
                self.data_points@ == old_data,
                found ==> idx < self.data_points@.len() && self.data_points@[idx as int].0@ == topic@,
                !found ==> forall|j: int| 0 <= j < idx ==> (#[trigger] self.data_points@[j]).0@ != topic@,
            decreases self.data_points.len() - idx + (if found { 0int } else { 1int }),
        {
            if str_eq(self.data_points[idx].0.as_str(), topic.as_str()) {
                found = true;
            } else {
                idx += 1;
            }
        }
        if found {
            let (key, mut series) = self.data_points.remove(idx);
            let ghost old_series = series@;
            series.push(value);
            trim_front(&mut series, MAX_DATA_POINTS);
            self.data_points.insert(idx, (key, series));
            proof {
                let new_data = self.data_points@;
                assert(new_data =~= old_data.update(idx as int, new_data[idx as int]));
                assert(new_data[idx as int].0 == old_data[idx as int].0);
                lemma_series_at(old_data, idx as int);
                assert(series_wf(new_data)) by {
                    assert forall|a: int, b: int| 0 <= a < b < new_data.len() implies (#[trigger] new_data[a]).0@
                        != (#[trigger] new_data[b]).0@ by {
                        assert(new_data[a].0 == old_data[a].0);
                        assert(new_data[b].0 == old_data[b].0);
                    }
                }
                lemma_series_at(new_data, idx as int);
                assert forall|t: Seq<char>| #[trigger] has_topic(new_data, t) == (t == topic@ || has_topic(old_data, t)) by {
                    if has_topic(old_data, t) {
                        let j = choose|j: int| 0 <= j < old_data.len() && (#[trigger] old_data[j]).0@ == t;
                        assert(new_data[j].0 == old_data[j].0);
                    }
                    if has_topic(new_data, t) {
                        let j = choose|j: int| 0 <= j < new_data.len() && (#[trigger] new_data[j]).0@ == t;
                        assert(new_data[j].0 == old_data[j].0);
                    }
                }
                assert forall|t: Seq<char>| #[trigger] series_of(new_data, t) == if t == topic@ {
                    keep_last(series_of(old_data, t).push(value), MAX_DATA_POINTS as nat)
                } else {
                    series_of(old_data, t)
                } by {
                    if t != topic@ && has_topic(old_data, t) {
                        let j = choose|j: int| 0 <= j < old_data.len() && (#[trigger] old_data[j]).0@ == t;
                        lemma_series_at(old_data, j);
                        lemma_series_at(new_data, j);
                        assert(new_data[j] == old_data[j]);
                    }
                }
            }
        } else {
            let mut series: Vec<V> = Vec::new();
            series.push(value);
            self.data_points.push((topic, series));
            proof {
                let new_data = self.data_points@;
                let n = old_data.len() as int;
                assert(!has_topic(old_data, topic@));
                assert(series_wf(new_data)) by {
                    assert forall|a: int, b: int| 0 <= a < b < new_data.len() implies (#[trigger] new_data[a]).0@
                        != (#[trigger] new_data[b]).0@ by {
                        if b == n {
                            assert(new_data[a] == old_data[a]);
                        } else {
                            assert(new_data[a] == old_data[a]);
                            assert(new_data[b] == old_data[b]);
                        }
                    }
                    assert forall|a: int| 0 <= a < new_data.len() implies (#[trigger] new_data[a]).1@.len()
                        <= MAX_DATA_POINTS by {
                        if a < n {
                            assert(new_data[a] == old_data[a]);
                        }
                    }
                }
                lemma_series_at(new_data, n);
                assert(seq![value] =~= Seq::<V>::empty().push(value));
                assert forall|t: Seq<char>| #[trigger] has_topic(new_data, t) == (t == topic@ || has_topic(old_data, t)) by {
                    if has_topic(old_data, t) {
                        let j = choose|j: int| 0 <= j < old_data.len() && (#[trigger] old_data[j]).0@ == t;
                        assert(new_data[j] == old_data[j]);
                    }
                    if has_topic(new_data, t) && t != topic@ {
                        let j = choose|j: int| 0 <= j < new_data.len() && (#[trigger] new_data[j]).0@ == t;
                        assert(j < n);
                        assert(new_data[j] == old_data[j]);
                    }
                }
                assert forall|t: Seq<char>| #[trigger] series_of(new_data, t) == if t == topic@ {
                    keep_last(series_of(old_data, t).push(value), MAX_DATA_POINTS as nat)
                } else {
                    series_of(old_data, t)
                } by {
                    if t != topic@ && has_topic(old_data, t) {
                        let j = choose|j: int| 0 <= j < old_data.len() && (#[trigger] old_data[j]).0@ == t;
                        lemma_series_at(old_data, j);
                        lemma_series_at(new_data, j);
                        assert(new_data[j] == old_data[j]);
                    }
                }
            }
        }
    }

    /// How one event of the post's channel changes the state `pre` into `post`
    /// (which is well formed).
    pub open spec fn step(pre: Self, event: LiveEvent<V>, post: Self) -> bool {
        &&& post.wf()
        &&& match event {
            LiveEvent::Presence { count } => {
                &&& post.reading_now == count
                &&& post.live_comments@ == pre.live_comments@
                &&& post.claps@ == pre.claps@
                &&& post.reaction_count == pre.reaction_count
                &&& post.next_clap_id == pre.next_clap_id
                &&& post.data_points@ == pre.data_points@
            },
            LiveEvent::Comment(c) => {
                &&& post.live_comments@ == comment_merged(pre.live_comments@, c)
                &&& post.reading_now == pre.reading_now
                &&& post.claps@ == pre.claps@
                &&& post.reaction_count == pre.reaction_count
                &&& post.next_clap_id == pre.next_clap_id
                &&& post.data_points@ == pre.data_points@
            },
            LiveEvent::Reaction { kind, total } => {
                &&& post.reaction_count == total
                &&& post.next_clap_id == pre.next_clap_id + 1
                &&& post.claps@ == keep_last(
                    pre.claps@.push(ClapBurst { id: post.next_clap_id, kind }),
                    MAX_CLAPS as nat,
                )
                &&& post.reading_now == pre.reading_now
                &&& post.live_comments@ == pre.live_comments@
                &&& post.data_points@ == pre.data_points@
            },
            LiveEvent::Data { topic, value } => {
                &&& forall|t: Seq<char>|
                    #[trigger] post.series(t) == if t == topic@ {
                        keep_last(pre.series(t).push(value), MAX_DATA_POINTS as nat)
                    } else {
                        pre.series(t)
                    }
                &&& post.reading_now == pre.reading_now
                &&& post.live_comments@ == pre.live_comments@
                &&& post.claps@ == pre.claps@
                &&& post.reaction_count == pre.reaction_count
                &&& post.next_clap_id == pre.next_clap_id
            },
        }
    }

    /// Fold one event of the post's channel into the state.
    pub fn apply(&mut self, event: LiveEvent<V>)
        requires
            old(self).wf(),
            event is Reaction ==> old(self).next_clap_id < u64::MAX,
        ensures
            final(self).wf(),
            Self::step(*old(self), event, *final(self)),
    {
        match event {
            LiveEvent::Presence { count } => {
                self.reading_now = count;
            },
            LiveEvent::Comment(c) => {
                self.merge_comment(c);
            },
            LiveEvent::Reaction { kind, total } => {
                self.reaction_count = total;
                self.next_clap_id = self.next_clap_id + 1;
                self.claps.push(ClapBurst { id: self.next_clap_id, kind });
                trim_front(&mut self.claps, MAX_CLAPS);
            },
            LiveEvent::Data { topic, value } => {
                self.push_sample(topic, value);
            },
        }
    }

    /// The newest `window` samples of `topic`, oldest first: what a live
    /// chart of that topic plots.
    pub fn recent_samples(&self, topic: &str, window: usize) -> (r: Vec<V>)
        where
            V: Copy,
        requires
            self.wf(),
        ensures
            r@ == keep_last(self.series(topic@), window as nat),
    {
        let mut idx: usize = 0;
        while idx < self.data_points.len()
            invariant
                0 <= idx <= self.data_points@.len(),
                self.wf(),
                forall|j: int| 0 <= j < idx ==> (#[trigger] self.data_points@[j]).0@ != topic@,
            decreases self.data_points.len() - idx,
        {
            if str_eq(self.data_points[idx].0.as_str(), topic) {
                proof {
                    lemma_series_at(self.data_points@, idx as int);
                }
                let series = &self.data_points[idx].1;
                let start: usize = if series.len() > window {
                    series.len() - window
                } else {
                    0
                };
                let mut r: Vec<V> = Vec::new();
                let mut k: usize = start;
                while k < series.len()
                    invariant
                        start <= k <= series@.len(),
                        r@ == series@.subrange(start as int, k as int),
                    decreases series.len() - k,
                {
                    r.push(series[k]);
                    assert(r@ =~= series@.subrange(start as int, k + 1));
                    k += 1;
                }
                proof {
                    if series@.len() > window {
                        assert(r@ =~= series@.skip(series@.len() - window));
                    } else {
                        assert(r@ =~= series@);
                    }
                }
                return r;
            }
            idx += 1;
        }
        proof {
            assert(!has_topic(self.data_points@, topic@));
        }
        Vec::new()
    }

    /// Show a clap of one's own right away, under an id of the caller's
    /// choosing (kept apart from the channel's ids).
    pub fn add_local_clap(&mut self, id: u64)
        ensures
            final(self).claps@ == old(self).claps@.push(ClapBurst { id, kind: final(self).claps@.last().kind }),
            final(self).claps@.last().kind@ == "clap"@,
            final(self).reading_now == old(self).reading_now,
            final(self).live_comments@ == old(self).live_comments@,
            final(self).reaction_count == old(self).reaction_count,
            final(self).next_clap_id == old(self).next_clap_id,
            final(self).data_points@ == old(self).data_points@,
    {
        self.claps.push(ClapBurst { id, kind: string_from("clap") });
    }

    /// Drop every clap whose animation has finished.
    pub fn clear_claps(&mut self)
        ensures
            final(self).claps@.len() == 0,
            final(self).reading_now == old(self).reading_now,
            final(self).live_comments@ == old(self).live_comments@,
            final(self).reaction_count == old(self).reaction_count,
            final(self).next_clap_id == old(self).next_clap_id,
            final(self).data_points@ == old(self).data_points@,
    {
        self.claps = Vec::new();
    }
}

/// Receiving the same comment a second time (an echo, or a resend after a
/// reconnect) changes nothing.
pub proof fn law_comment_merge_idempotent(s: Seq<CommentView>, c: CommentView)
    ensures
        comment_merged(comment_merged(s, c), c) == comment_merged(s, c),
{
    if !has_comment_id(s, c.id) {
        let t = s.push(c);
        assert(t[s.len() as int].id == c.id);
        assert(has_comment_id(t, c.id));
    }
}

/// A merge keeps every comment already shown, in its place.
pub proof fn law_comment_merge_keeps(s: Seq<CommentView>, c: CommentView)
    ensures
        comment_merged(s, c).len() >= s.len(),
        forall|i: int| 0 <= i < s.len() ==> #[trigger] comment_merged(s, c)[i] == s[i],
        has_comment_id(comment_merged(s, c), c.id),
{
    if !has_comment_id(s, c.id) {
        assert(s.push(c)[s.len() as int].id == c.id);
    }
}

/// The buffer keeps at most `n` items, the newest ones in their order.
pub proof fn law_keep_last<T>(s: Seq<T>, n: nat)
    ensures
        keep_last(s, n).len() == if s.len() > n { n } else { s.len() },
        forall|i: int|
            0 <= i < keep_last(s, n).len() ==> #[trigger] keep_last(s, n)[i] == s[s.len() - keep_last(
                s,
                n,
            ).len() + i],
{
}

// ------------------------------------------------------------------ admin

/// What an activity row represents.
#[derive(Clone, Debug)]
pub enum ActivityKind {
    /// A comment, with its id and current moderation status.
    Comment { id: i64, who: String, status: String },
    /// Reactions on a post, coalesced into one row carrying the latest total.
    Reaction { total: i64 },
}

/// One row of the admin activity feed; `key` is a monotonic render key.
#[derive(Clone, Debug)]
pub struct ActivityItem {
    pub key: u64,
    pub post_title: String,
    pub post_slug: String,
    pub kind: ActivityKind,
}

/// An event of the site-wide admin channel.
pub enum AdminEvent {
    /// A comment was created or moderated.
    Comment { id: i64, post_title: String, post_slug: String, display_name: String, status: String },
    /// A post got a reaction; `total` is its new reaction count.
    Reaction { post_slug: String, post_title: String, total: i64 },
    /// A comment was deleted.
    CommentRemoved { id: i64 },
}

/// The admin dashboard's live state.
pub struct AdminLiveState {
    /// Recent activity rows, newest last, capped and coalesced.
    pub activity: Vec<ActivityItem>,
    /// Bumped on every comment create, moderate or remove event.
    pub comment_tick: u64,
    /// Count of reaction events seen since load.
    pub reaction_delta: i64,
    /// The render key given to the latest row.
    pub next_key: u64,
}

/// Whether `it` is the row of comment `id`.
pub open spec fn is_comment_row(it: ActivityItem, id: i64) -> bool {
    it.kind is Comment && it.kind->Comment_id == id
}

/// Whether `it` is the reaction row of the post `slug`.
pub open spec fn is_reaction_row(it: ActivityItem, slug: Seq<char>) -> bool {
    it.kind is Reaction && it.post_slug@ == slug
}

/// The predicate "is the row of comment `id`".
pub open spec fn comment_row_pred(id: i64) -> spec_fn(ActivityItem) -> bool {
    |it: ActivityItem| is_comment_row(it, id)
}

/// The predicate "is the reaction row of post `slug`".
pub open spec fn reaction_row_pred(slug: Seq<char>) -> spec_fn(ActivityItem) -> bool {
    |it: ActivityItem| is_reaction_row(it, slug)
}

/// The first index at which `p` holds in `s`, if any.
pub open spec fn first_where(s: Seq<ActivityItem>, p: spec_fn(ActivityItem) -> bool) -> Option<int> {
    if exists|i: int| 0 <= i < s.len() && p(#[trigger] s[i]) {
        Some(choose|i: int| 0 <= i < s.len() && p(#[trigger] s[i]) && forall|j: int| 0 <= j < i ==> !p(#[trigger] s[j]))
    } else {
        None
    }
}

/// `s` without the rows of comment `id`.
pub open spec fn without_comment(s: Seq<ActivityItem>, id: i64) -> Seq<ActivityItem>
    decreases s.len(),
{
    if s.len() == 0 {
        s
    } else {
        let pre = without_comment(s.drop_last(), id);
        if is_comment_row(s.last(), id) {
            pre
        } else {
            pre.push(s.last())
        }
    }
}

/// The rows have strictly increasing keys, none above `next_key`.
pub open spec fn keys_increasing(s: Seq<ActivityItem>, next_key: u64) -> bool {
    &&& forall|i: int, j: int| 0 <= i < j < s.len() ==> (#[trigger] s[i]).key < (#[trigger] s[j]).key
    &&& forall|i: int| 0 <= i < s.len() ==> (#[trigger] s[i]).key <= next_key
}

/// Whether two rows stand for the same thing: the same comment, or the
/// reactions of the same post.
pub open spec fn row_clash(a: ActivityItem, b: ActivityItem) -> bool {
    ||| (a.kind is Comment && b.kind is Comment && a.kind->Comment_id == b.kind->Comment_id)
    ||| (a.kind is Reaction && b.kind is Reaction && a.post_slug@ == b.post_slug@)
}

/// No two rows stand for the same thing: one row per comment, one reaction
/// row per post.
pub open spec fn rows_distinct(s: Seq<ActivityItem>) -> bool {
    forall|i: int, j: int| 0 <= i < j < s.len() ==> !row_clash(#[trigger] s[i], #[trigger] s[j])
}

/// A copy of an activity kind.
fn copy_kind(k: &ActivityKind) -> (r: ActivityKind)
    ensures
        r == *k,
{
    match k {
        ActivityKind::Comment { id, who, status } => ActivityKind::Comment {
            id: *id,
            who: who.clone(),
            status: status.clone(),
        },
        ActivityKind::Reaction { total } => ActivityKind::Reaction { total: *total },
    }
}

/// A copy of an activity row.
fn copy_item(it: &ActivityItem) -> (r: ActivityItem)
    ensures
        r == *it,
{
    ActivityItem {
        key: it.key,
        post_title: it.post_title.clone(),
        post_slug: it.post_slug.clone(),
        kind: copy_kind(&it.kind),
    }
}

/// Lemma: the first index found by a scan is `first_where`'s answer.
proof fn lemma_first_where(s: Seq<ActivityItem>, p: spec_fn(ActivityItem) -> bool, i: int)
    requires
        0 <= i < s.len(),
        p(s[i]),
        forall|j: int| 0 <= j < i ==> !p(#[trigger] s[j]),
    ensures
        first_where(s, p) == Some(i),
{
    assert(exists|k: int| 0 <= k < s.len() && p(#[trigger] s[k]));
    let k = choose|k: int| 0 <= k < s.len() && p(#[trigger] s[k]) && forall|j: int| 0 <= j < k ==> !p(#[trigger] s[j]);
    assert(p(s[i]) && forall|j: int| 0 <= j < i ==> !p(#[trigger] s[j]));
    if k < i {
        assert(!p(s[k]));
    }
    if i < k {
        assert(!p(s[i]));
    }
}

impl AdminLiveState {
    /// The state's invariant: render keys strictly increase along the feed,
    /// and no two rows stand for the same comment or the same post's reactions.
    pub open spec fn wf(&self) -> bool {
        &&& keys_increasing(self.activity@, self.next_key)
        &&& rows_distinct(self.activity@)
    }

    /// The inert state: no activity, no ticks.
    pub fn new() -> (s: Self)
        ensures
            s.wf(),
            s.activity@.len() == 0,
            s.comment_tick == 0,
            s.reaction_delta == 0,
            s.next_key == 0,
    {
        AdminLiveState { activity: Vec::new(), comment_tick: 0, reaction_delta: 0, next_key: 0 }
    }

    /// Index of the first row matching comment `id`, or of the first reaction
    /// row of `slug` when `id` is `None`.
    fn find_row(&self, id: Option<i64>, slug: &str) -> (r: Option<usize>)
        ensures
            ({
                let p = match id {
                    Some(id) => comment_row_pred(id),
                    None => reaction_row_pred(slug@),
                };
                match r {
                    Some(j) => j < self.activity@.len() && first_where(self.activity@, p) == Some(j as int)
                        && p(self.activity@[j as int]),
                    None => first_where(self.activity@, p) is None && forall|k: int|
                        0 <= k < self.activity@.len() ==> !p(#[trigger] self.activity@[k]),
                }
            }),
    {
        let ghost p: spec_fn(ActivityItem) -> bool = match id {
            Some(id) => comment_row_pred(id),
            None => reaction_row_pred(slug@),
        };
        let mut i: usize = 0;
        while i < self.activity.len()
            invariant
                0 <= i <= self.activity@.len(),
                p == (match id {
                    Some(id) => comment_row_pred(id),
                    None => reaction_row_pred(slug@),
                }),
                forall|j: int| 0 <= j < i ==> !p(#[trigger] self.activity@[j]),
            decreases self.activity.len() - i,
        {
            let it = &self.activity[i];
            let hit = match id {
                Some(cid) => match &it.kind {
                    ActivityKind::Comment { id: x, .. } => *x == cid,
                    ActivityKind::Reaction { .. } => false,
                },
                None => match &it.kind {
                    ActivityKind::Comment { .. } => false,
                    ActivityKind::Reaction { .. } => str_eq(it.post_slug.as_str(), slug),
                },
            };
            if hit {
                proof {
                    lemma_first_where(self.activity@, p, i as int);
                }
                return Some(i);
            }
            i += 1;
        }
        proof {
            assert(!(exists|k: int| 0 <= k < self.activity@.len() && p(#[trigger] self.activity@[k])));
        }
        None
    }

    /// Append a new row under the next render key, dropping the oldest rows
    /// past `MAX_ACTIVITY`.
    fn add_row(&mut self, post_title: String, post_slug: String, kind: ActivityKind)
        requires
            old(self).wf(),
            old(self).next_key < u64::MAX,
            forall|k: int|
                0 <= k < old(self).activity@.len() ==> !row_clash(
                    #[trigger] old(self).activity@[k],
                    ActivityItem { key: 0, post_title, post_slug, kind },
                ),
        ensures
            final(self).wf(),
            final(self).next_key == old(self).next_key + 1,
            final(self).activity@ == keep_last(
                old(self).activity@.push(ActivityItem { key: final(self).next_key, post_title, post_slug, kind }),
                MAX_ACTIVITY as nat,
            ),
            final(self).comment_tick == old(self).comment_tick,
            final(self).reaction_delta == old(self).reaction_delta,
    {
        self.next_key = self.next_key + 1;
        let ghost pushed = self.activity@.push(ActivityItem { key: self.next_key, post_title, post_slug, kind });
        self.activity.push(ActivityItem { key: self.next_key, post_title, post_slug, kind });
        assert(self.activity@ == pushed);
        assert(keys_increasing(pushed, self.next_key));
        trim_front(&mut self.activity, MAX_ACTIVITY);
        proof {
            let s = self.activity@;
            let off = pushed.len() - s.len();
            assert forall|i: int, j: int| 0 <= i < j < s.len() implies (#[trigger] s[i]).key < (#[trigger] s[j]).key by {
                assert(s[i] == pushed[off + i]);
                assert(s[j] == pushed[off + j]);
            }
            assert forall|i: int| 0 <= i < s.len() implies (#[trigger] s[i]).key <= self.next_key by {
                assert(s[i] == pushed[off + i]);
            }
            let o = old(self).activity@;
            assert(rows_distinct(pushed)) by {
                assert forall|i: int, j: int| 0 <= i < j < pushed.len() implies !row_clash(#[trigger] pushed[i], #[trigger] pushed[j]) by {
                    assert(pushed[i] == o[i]);
                    if j < o.len() {
                        assert(pushed[j] == o[j]);
                    } else {
                        assert(!row_clash(o[i], ActivityItem { key: 0, post_title, post_slug, kind }));
                    }
                }
            }
            assert forall|i: int, j: int| 0 <= i < j < s.len() implies !row_clash(#[trigger] s[i], #[trigger] s[j]) by {
                assert(s[i] == pushed[off + i]);
                assert(s[j] == pushed[off + j]);
            }
        }
    }

    /// Replace the kind of row `found`, or add a new row when there is none.
    fn upsert_row(&mut self, found: Option<usize>, post_title: String, post_slug: String, kind: ActivityKind)
        requires
            old(self).wf(),
            found matches Some(i) ==> i < old(self).activity@.len() && row_clash(
                old(self).activity@[i as int],
                ActivityItem { kind, ..old(self).activity@[i as int] },
            ),
            found is None ==> old(self).next_key < u64::MAX,
            found is None ==> forall|k: int|
                0 <= k < old(self).activity@.len() ==> !row_clash(
                    #[trigger] old(self).activity@[k],
                    ActivityItem { key: 0, post_title, post_slug, kind },
                ),
        ensures
            final(self).wf(),
            final(self).comment_tick == old(self).comment_tick,
            final(self).reaction_delta == old(self).reaction_delta,
            match found {
                Some(i) => {
                    &&& final(self).activity@ == old(self).activity@.update(
                        i as int,
                        ActivityItem { kind, ..old(self).activity@[i as int] },
                    )
                    &&& final(self).next_key == old(self).next_key
                },
                None => {
                    &&& final(self).next_key == old(self).next_key + 1
                    &&& final(self).activity@ == keep_last(
                        old(self).activity@.push(
                            ActivityItem { key: final(self).next_key, post_title, post_slug, kind },
                        ),
                        MAX_ACTIVITY as nat,
                    )
                },
            },
    {
        match found {
            Some(i) => {
                let it = &self.activity[i];
                let row = ActivityItem {
                    key: it.key,
                    post_title: it.post_title.clone(),
                    post_slug: it.post_slug.clone(),
                    kind,
                };
                let ghost before = self.activity@;
                self.activity.set(i, row);
                proof {
                    let s = self.activity@;
                    assert forall|a: int, b: int| 0 <= a < b < s.len() implies (#[trigger] s[a]).key < (#[trigger] s[b]).key by {
                        assert(s[a].key == before[a].key);
                        assert(s[b].key == before[b].key);
                    }
                    assert forall|a: int| 0 <= a < s.len() implies (#[trigger] s[a]).key <= self.next_key by {
                        assert(s[a].key == before[a].key);
                    }
                    assert forall|a: int, b: int| 0 <= a < b < s.len() implies !row_clash(#[trigger] s[a], #[trigger] s[b]) by {
                        if a != i && b != i {
                            assert(s[a] == before[a]);
                            assert(s[b] == before[b]);
                        } else if a == i {
                            assert(s[b] == before[b]);
                            assert(!row_clash(before[a], before[b]));
                        } else {
                            assert(s[a] == before[a]);
                            assert(!row_clash(before[a], before[b]));
                        }
                    }
                }
            },
            None => {
                self.add_row(post_title, post_slug, kind);
            },
        }
    }

    /// Whether `event` adds a row (rather than updating one in place or
    /// removing rows): a comment or a post's reactions not yet in the feed.
    pub open spec fn adds_row_for(&self, event: AdminEvent) -> bool {
        match event {
            AdminEvent::Comment { id, .. } => first_where(self.activity@, comment_row_pred(id)) is None,
            AdminEvent::Reaction { post_slug, .. } => first_where(
                self.activity@,
                reaction_row_pred(post_slug@),
            ) is None,
            AdminEvent::CommentRemoved { .. } => false,
        }
    }

    /// Whether `event` adds a row, which takes the next render key.
    pub fn adds_row(&self, event: &AdminEvent) -> (b: bool)
        ensures
            b == self.adds_row_for(*event),
    {
        match event {
            AdminEvent::Comment { id, .. } => self.find_row(Some(*id), "").is_none(),
            AdminEvent::Reaction { post_slug, .. } => self.find_row(None, post_slug.as_str()).is_none(),
            AdminEvent::CommentRemoved { .. } => false,
        }
    }

    /// How one event of the admin channel changes the state `pre` into `post`
    /// (which is well formed).
    pub open spec fn step(pre: Self, event: AdminEvent, post: Self) -> bool {
        &&& post.wf()
        &&& match event {
            AdminEvent::Comment { id, post_title, post_slug, display_name, status } => {
                let kind = ActivityKind::Comment { id, who: display_name, status };
                &&& post.comment_tick == pre.comment_tick + 1
                &&& post.reaction_delta == pre.reaction_delta
                &&& match first_where(pre.activity@, comment_row_pred(id)) {
                    Some(i) => {
                        &&& post.activity@ == pre.activity@.update(
                            i,
                            ActivityItem { kind, ..pre.activity@[i] },
                        )
                        &&& post.next_key == pre.next_key
                    },
                    None => {
                        &&& post.next_key == pre.next_key + 1
                        &&& post.activity@ == keep_last(
                            pre.activity@.push(
                                ActivityItem { key: post.next_key, post_title, post_slug, kind },
                            ),
                            MAX_ACTIVITY as nat,
                        )
                    },
                }
            },
            AdminEvent::Reaction { post_slug, post_title, total } => {
                let kind = ActivityKind::Reaction { total };
                &&& post.reaction_delta == pre.reaction_delta + 1
                &&& post.comment_tick == pre.comment_tick
                &&& match first_where(pre.activity@, reaction_row_pred(post_slug@)) {
                    Some(i) => {
                        &&& post.activity@ == pre.activity@.update(
                            i,
                            ActivityItem { kind, ..pre.activity@[i] },
                        )
                        &&& post.next_key == pre.next_key
                    },
                    None => {
                        &&& post.next_key == pre.next_key + 1
                        &&& post.activity@ == keep_last(
                            pre.activity@.push(
                                ActivityItem { key: post.next_key, post_title, post_slug, kind },
                            ),
                            MAX_ACTIVITY as nat,
                        )
                    },
                }
            },
            AdminEvent::CommentRemoved { id } => {
                &&& post.comment_tick == pre.comment_tick + 1
                &&& post.reaction_delta == pre.reaction_delta
                &&& post.next_key == pre.next_key
                &&& post.activity@ == without_comment(pre.activity@, id)
            },
        }
    }

    /// Fold one event of the admin channel into the state.
    pub fn apply(&mut self, event: AdminEvent)
        requires
            old(self).wf(),
            !(event is Reaction) ==> old(self).comment_tick < u64::MAX,
            event is Reaction ==> old(self).reaction_delta < i64::MAX,
            old(self).adds_row_for(event) ==> old(self).next_key < u64::MAX,
        ensures
            final(self).wf(),
            Self::step(*old(self), event, *final(self)),
    {
        match event {
            AdminEvent::Comment { id, post_title, post_slug, display_name, status } => {
                self.comment_tick = self.comment_tick + 1;
                let kind = ActivityKind::Comment { id, who: display_name, status };
                let found = self.find_row(Some(id), "");
                proof {
                    let a = self.activity@;
                    assert forall|k: int| found is None && 0 <= k < a.len() implies !row_clash(
                        #[trigger] a[k],
                        ActivityItem { key: 0, post_title, post_slug, kind },
                    ) by {
                        assert(!comment_row_pred(id)(a[k]));
                    }
                }
                self.upsert_row(found, post_title, post_slug, kind);
            },
            AdminEvent::Reaction { post_slug, post_title, total } => {
                self.reaction_delta = self.reaction_delta + 1;
                let kind = ActivityKind::Reaction { total };
                let found = self.find_row(None, post_slug.as_str());
                proof {
                    let a = self.activity@;
                    assert forall|k: int| found is None && 0 <= k < a.len() implies !row_clash(
                        #[trigger] a[k],
                        ActivityItem { key: 0, post_title, post_slug, kind },
                    ) by {
                        assert(!reaction_row_pred(post_slug@)(a[k]));
                    }
                }
                self.upsert_row(found, post_title, post_slug, kind);
            },
            AdminEvent::CommentRemoved { id } => {
                self.comment_tick = self.comment_tick + 1;
                self.remove_comment_rows(id);
            },
        }
    }

    /// Drop the rows of comment `id`, keeping the others in order.
    fn remove_comment_rows(&mut self, id: i64)
        requires
            old(self).wf(),
        ensures
            final(self).wf(),
            final(self).activity@ == without_comment(old(self).activity@, id),
            final(self).next_key == old(self).next_key,
            final(self).comment_tick == old(self).comment_tick,
            final(self).reaction_delta == old(self).reaction_delta,
    {
        let mut kept: Vec<ActivityItem> = Vec::new();
        let mut k: usize = 0;
        while k < self.activity.len()
            invariant
                0 <= k <= self.activity@.len(),
                kept@ == without_comment(self.activity@.take(k as int), id),
            decreases self.activity.len() - k,
        {
            proof {
                let t = self.activity@.take(k + 1);
                assert(t.drop_last() =~= self.activity@.take(k as int));
                assert(t.last() == self.activity@[k as int]);
            }
            let it = &self.activity[k];
            let drop = match &it.kind {
                ActivityKind::Comment { id: x, .. } => *x == id,
                ActivityKind::Reaction { .. } => false,
            };
            if !drop {
                kept.push(copy_item(it));
            }
            k += 1;
        }
        proof {
            assert(self.activity@.take(self.activity@.len() as int) =~= self.activity@);
            lemma_without_comment_keys(self.activity@, id, self.next_key);
        }
        self.activity = kept;
    }
}

/// Removing rows keeps the keys increasing and bounded.
proof fn lemma_without_comment_keys(s: Seq<ActivityItem>, id: i64, next_key: u64)
    requires
        keys_increasing(s, next_key),
        rows_distinct(s),
    ensures
        keys_increasing(without_comment(s, id), next_key),
        rows_distinct(without_comment(s, id)),
        forall|i: int| 0 <= i < without_comment(s, id).len() ==> exists|j: int| 0 <= j < s.len() && s[j] == #[trigger] without_comment(s, id)[i],
        without_comment(s, id).len() > 0 ==> without_comment(s, id).last().key <= s.last().key,
    decreases s.len(),
{
    if s.len() > 0 {
        let d = s.drop_last();
        assert(keys_increasing(d, next_key));
        assert(rows_distinct(d)) by {
            assert forall|i: int, j: int| 0 <= i < j < d.len() implies !row_clash(#[trigger] d[i], #[trigger] d[j]) by {
                assert(d[i] == s[i]);
                assert(d[j] == s[j]);
            }
        }
        lemma_without_comment_keys(d, id, next_key);
        let w = without_comment(d, id);
        assert forall|i: int| 0 <= i < w.len() implies (#[trigger] w[i]).key < s.last().key && !row_clash(w[i], s.last()) by {
            let j = choose|j: int| 0 <= j < d.len() && d[j] == w[i];
            assert(s[j] == d[j]);
        }
        if !is_comment_row(s.last(), id) {
            let r = w.push(s.last());
            assert forall|i: int, j: int| 0 <= i < j < r.len() implies !row_clash(#[trigger] r[i], #[trigger] r[j]) by {
                assert(r[i] == w[i]);
                if j < w.len() {
                    assert(r[j] == w[j]);
                }
            }
        }
        if !is_comment_row(s.last(), id) {
            let r = w.push(s.last());
            assert forall|i: int| 0 <= i < r.len() implies exists|j: int| 0 <= j < s.len() && s[j] == #[trigger] r[i] by {
                if i < w.len() {
                    let j = choose|j: int| 0 <= j < d.len() && d[j] == w[i];
                    assert(s[j] == d[j]);
                } else {
                    assert(s[s.len() - 1] == r[i]);
                }
            }
        } else {
            assert forall|i: int| 0 <= i < w.len() implies exists|j: int| 0 <= j < s.len() && s[j] == #[trigger] w[i] by {
                let j = choose|j: int| 0 <= j < d.len() && d[j] == w[i];
                assert(s[j] == d[j]);
            }
        }
    }
}

/// After a comment is removed, the feed holds no row of it.
pub proof fn law_removed_comment_gone(s: Seq<ActivityItem>, id: i64)
    ensures
        forall|i: int| 0 <= i < without_comment(s, id).len() ==> !is_comment_row(#[trigger] without_comment(s, id)[i], id),
    decreases s.len(),
{
    if s.len() > 0 {
        let d = s.drop_last();
        law_removed_comment_gone(d, id);
        let w = without_comment(d, id);
        if !is_comment_row(s.last(), id) {
            assert forall|i: int| 0 <= i < w.push(s.last()).len() implies !is_comment_row(#[trigger] w.push(s.last())[i], id) by {
                if i < w.len() {
                    assert(w.push(s.last())[i] == w[i]);
                }
            }
        }
    }
}

/// Removing a comment keeps every other row, in order.
pub proof fn law_removal_keeps_others(s: Seq<ActivityItem>, id: i64)
    ensures
        without_comment(s, id).len() <= s.len(),
        forall|i: int| 0 <= i < s.len() && !is_comment_row(s[i], id) ==> #[trigger] without_comment(s, id).contains(s[i]),
    decreases s.len(),
{
    if s.len() > 0 {
        let d = s.drop_last();
        law_removal_keeps_others(d, id);
        let w = without_comment(d, id);
        assert forall|i: int| 0 <= i < s.len() && !is_comment_row(s[i], id) implies #[trigger] without_comment(s, id).contains(s[i]) by {
            if i < d.len() {
                assert(d[i] == s[i]);
                assert(w.contains(d[i]));
                let k = choose|k: int| 0 <= k < w.len() && w[k] == d[i];
                if !is_comment_row(s.last(), id) {
                    assert(w.push(s.last())[k] == w[k]);
                }
            } else {
                assert(w.push(s.last())[w.len() as int] == s[i]);
            }
        }
    }
}

// ------------------------------------------------------------------ event folds

/// `trace` is a run of `LiveState::apply` over `events`: each state follows
/// the one before it on the event between them.
pub open spec fn live_run<V>(trace: Seq<LiveState<V>>, events: Seq<LiveEvent<V>>) -> bool {
    &&& trace.len() == events.len() + 1
    &&& forall|i: int, j: int|
        0 <= i < events.len() && j == i + 1 ==> #[trigger] LiveState::step(trace[i], events[i], trace[j])
}

/// The reader count after `events`: the last presence count, or `r` if none came.
pub open spec fn presence_after<V>(r: i64, events: Seq<LiveEvent<V>>) -> i64
    decreases events.len(),
{
    if events.len() == 0 {
        r
    } else {
        match events.last() {
            LiveEvent::Presence { count } => count,
            _ => presence_after(r, events.drop_last()),
        }
    }
}

/// The reaction total after `events`: the last reaction's total, or `r` if none came.
pub open spec fn total_after<V>(r: i64, events: Seq<LiveEvent<V>>) -> i64
    decreases events.len(),
{
    if events.len() == 0 {
        r
    } else {
        match events.last() {
            LiveEvent::Reaction { total, .. } => total,
            _ => total_after(r, events.drop_last()),
        }
    }
}

/// The number of reaction events among `events`.
pub open spec fn reaction_events<V>(events: Seq<LiveEvent<V>>) -> nat
    decreases events.len(),
{
    if events.len() == 0 {
        0
    } else {
        reaction_events(events.drop_last()) + (if events.last() is Reaction { 1nat } else { 0nat })
    }
}

/// Whether a comment with id `id` came among `events`.
pub open spec fn received_comment<V>(events: Seq<LiveEvent<V>>, id: i64) -> bool {
    exists|i: int| 0 <= i < events.len() && (#[trigger] events[i]) is Comment && events[i]->Comment_0.id == id
}

proof fn lemma_live_run_prefix<V>(trace: Seq<LiveState<V>>, events: Seq<LiveEvent<V>>)
    requires
        live_run(trace, events),
        events.len() > 0,
    ensures
        live_run(trace.drop_last(), events.drop_last()),
        LiveState::step(trace[events.len() - 1], events.last(), trace.last()),
{
    let t = trace.drop_last();
    let e = events.drop_last();
    assert forall|i: int, j: int| 0 <= i < e.len() && j == i + 1 implies #[trigger] LiveState::step(t[i], e[i], t[j]) by {
        assert(t[i] == trace[i] && t[j] == trace[j] && e[i] == events[i]);
        assert(LiveState::step(trace[i], events[i], trace[j]));
    }
    let n = events.len() - 1;
    assert(LiveState::step(trace[n], events[n], trace[n + 1]));
}

/// What a run of the post's channel leaves: the reader badge shows the last
/// presence count (an absolute count, so a reconnect resyncs it), the reaction
/// tile the last total, one clap was launched per reaction, and every comment
/// shown before or received since is shown.
pub proof fn law_live_fold<V>(trace: Seq<LiveState<V>>, events: Seq<LiveEvent<V>>)
    requires
        live_run(trace, events),
    ensures
        trace.last().reading_now == presence_after(trace[0].reading_now, events),
        trace.last().reaction_count == total_after(trace[0].reaction_count, events),
        trace.last().next_clap_id == trace[0].next_clap_id + reaction_events(events),
        forall|id: i64|
            has_comment_id(trace[0].live_comments@, id) || received_comment(events, id) ==> #[trigger] has_comment_id(
                trace.last().live_comments@,
                id,
            ),
    decreases events.len(),
{
    if events.len() > 0 {
        lemma_live_run_prefix(trace, events);
        let t = trace.drop_last();
        let e = events.drop_last();
        law_live_fold(t, e);
        let n = e.len() as int;
        let pre = trace[n];
        let post = trace.last();
        assert(t.last() == pre);
        assert(t[0] == trace[0]);
        assert forall|id: i64|
            has_comment_id(trace[0].live_comments@, id) || received_comment(events, id) implies #[trigger] has_comment_id(
                post.live_comments@,
                id,
            ) by {
            let old_c = pre.live_comments@;
            let new_c = post.live_comments@;
            if received_comment(events, id) && !received_comment(e, id) {
                let i = choose|i: int| 0 <= i < events.len() && (#[trigger] events[i]) is Comment && events[i]->Comment_0.id == id;
                if i < n {
                    assert(e[i] == events[i]);
                    assert(received_comment(e, id));
                }
                assert(i == n);
            }
            if has_comment_id(trace[0].live_comments@, id) || received_comment(e, id) {
                assert(has_comment_id(old_c, id));
                let k = choose|k: int| 0 <= k < old_c.len() && (#[trigger] old_c[k]).id == id;
                match events.last() {
                    LiveEvent::Comment(c) => {
                        if !has_comment_id(old_c, c.id) {
                            assert(new_c[k] == old_c[k]);
                        }
                    },
                    _ => {},
                }
                assert(new_c.len() >= old_c.len() && new_c[k] == old_c[k]);
            } else {
                assert(events[n] is Comment && events[n]->Comment_0.id == id);
                let c = events[n]->Comment_0;
                if !has_comment_id(old_c, c.id) {
                    assert(new_c[old_c.len() as int] == c);
                }
            }
        }
    }
}

/// The samples for `topic` among `events`, in arrival order.
pub open spec fn data_values<V>(events: Seq<LiveEvent<V>>, topic: Seq<char>) -> Seq<V>
    decreases events.len(),
{
    if events.len() == 0 {
        seq![]
    } else {
        let pre = data_values(events.drop_last(), topic);
        match events.last() {
            LiveEvent::Data { topic: t, value } => if t@ == topic {
                pre.push(value)
            } else {
                pre
            },
            _ => pre,
        }
    }
}

/// Keeping the last `n` before a push keeps the same as keeping them after.
proof fn lemma_keep_last_push<T>(s: Seq<T>, v: T, n: nat)
    ensures
        keep_last(keep_last(s, n).push(v), n) == keep_last(s.push(v), n),
{
    if s.len() > n {
        let k = keep_last(s, n);
        assert(k.len() == n);
        assert(keep_last(k.push(v), n) =~= s.push(v).skip(s.len() + 1 - n));
    }
}

/// Under the invariant, no series holds more than `MAX_DATA_POINTS` samples.
proof fn lemma_series_capped<V>(st: LiveState<V>, t: Seq<char>)
    requires
        st.wf(),
    ensures
        st.series(t).len() <= MAX_DATA_POINTS,
{
    let d = st.data_points@;
    if has_topic(d, t) {
        let c = choose|i: int| 0 <= i < d.len() && (#[trigger] d[i]).0@ == t;
        assert(d[c].1@.len() <= MAX_DATA_POINTS);
    }
}

/// Over a whole run of the post's channel: every state keeps the invariant
/// (comment ids distinct, series topics distinct and capped), at most
/// `MAX_CLAPS` claps are in flight, and each topic's series holds the last
/// `MAX_DATA_POINTS` samples received for it, in arrival order.
pub proof fn law_live_run<V>(trace: Seq<LiveState<V>>, events: Seq<LiveEvent<V>>)
    requires
        live_run(trace, events),
        trace[0].wf(),
        trace[0].claps@.len() <= MAX_CLAPS,
    ensures
        forall|i: int| 0 <= i < trace.len() ==> (#[trigger] trace[i]).wf() && trace[i].claps@.len() <= MAX_CLAPS,
        forall|t: Seq<char>|
            #[trigger] trace.last().series(t) == keep_last(trace[0].series(t) + data_values(events, t), MAX_DATA_POINTS as nat),
    decreases events.len(),
{
    if events.len() == 0 {
        assert forall|t: Seq<char>|
            #[trigger] trace.last().series(t) == keep_last(trace[0].series(t) + data_values(events, t), MAX_DATA_POINTS as nat) by {
            lemma_series_capped(trace[0], t);
            assert(trace[0].series(t) + data_values(events, t) =~= trace[0].series(t));
        }
    } else {
        lemma_live_run_prefix(trace, events);
        let tr = trace.drop_last();
        let e = events.drop_last();
        law_live_run(tr, e);
        let n = e.len() as int;
        let pre = trace[n];
        let post = trace.last();
        assert(tr.last() == pre);
        assert(tr[0] == trace[0]);
        assert forall|i: int| 0 <= i < trace.len() implies (#[trigger] trace[i]).wf() && trace[i].claps@.len() <= MAX_CLAPS by {
            if i < n + 1 {
                assert(trace[i] == tr[i]);
            }
        }
        assert forall|t: Seq<char>|
            #[trigger] post.series(t) == keep_last(trace[0].series(t) + data_values(events, t), MAX_DATA_POINTS as nat) by {
            let before = trace[0].series(t) + data_values(e, t);
            assert(pre.series(t) == keep_last(before, MAX_DATA_POINTS as nat));
            match events.last() {
                LiveEvent::Data { topic, value } => {
                    if t == topic@ {
                        lemma_keep_last_push(before, value, MAX_DATA_POINTS as nat);
                        assert(before.push(value) =~= trace[0].series(t) + data_values(events, t));
                    } else {
                        assert(data_values(events, t) == data_values(e, t));
                    }
                },
                _ => {
                    assert(data_values(events, t) == data_values(e, t));
                    assert(post.series(t) == pre.series(t));
                },
            }
        }
    }
}

/// `trace` is a run of `AdminLiveState::apply` over `events`.
pub open spec fn admin_run(trace: Seq<AdminLiveState>, events: Seq<AdminEvent>) -> bool {
    &&& trace.len() == events.len() + 1
    &&& forall|i: int, j: int|
        0 <= i < events.len() && j == i + 1 ==> #[trigger] AdminLiveState::step(trace[i], events[i], trace[j])
}

/// The number of comment events (created, moderated or removed) among `events`.
pub open spec fn comment_events(events: Seq<AdminEvent>) -> nat
    decreases events.len(),
{
    if events.len() == 0 {
        0
    } else {
        comment_events(events.drop_last()) + (if events.last() is Reaction { 0nat } else { 1nat })
    }
}

/// The number of reaction events among `events`.
pub open spec fn admin_reaction_events(events: Seq<AdminEvent>) -> nat
    decreases events.len(),
{
    if events.len() == 0 {
        0
    } else {
        admin_reaction_events(events.drop_last()) + (if events.last() is Reaction { 1nat } else { 0nat })
    }
}

/// What a run of the admin channel leaves: the comment tick went up once per
/// comment event (so pages refetch after each), and the reaction delta once
/// per reaction event.
pub proof fn law_admin_fold(trace: Seq<AdminLiveState>, events: Seq<AdminEvent>)
    requires
        admin_run(trace, events),
    ensures
        trace.last().comment_tick == trace[0].comment_tick + comment_events(events),
        trace.last().reaction_delta == trace[0].reaction_delta + admin_reaction_events(events),
    decreases events.len(),
{
    if events.len() > 0 {
        let t = trace.drop_last();
        let e = events.drop_last();
        assert forall|i: int, j: int| 0 <= i < e.len() && j == i + 1 implies #[trigger] AdminLiveState::step(
            t[i],
            e[i],
            t[j],
        ) by {
            assert(t[i] == trace[i] && t[j] == trace[j] && e[i] == events[i]);
            assert(AdminLiveState::step(trace[i], events[i], trace[j]));
        }
        law_admin_fold(t, e);
        let n = e.len() as int;
        assert(AdminLiveState::step(trace[n], events[n], trace[n + 1]));
        assert(t.last() == trace[n]);
        assert(t[0] == trace[0]);
    }
}

/// Over a whole run of the admin channel: every state keeps the invariant
/// (render keys strictly increasing, at most one row per comment and one
/// reaction row per post) and the feed holds at most `MAX_ACTIVITY` rows.
pub proof fn law_admin_run(trace: Seq<AdminLiveState>, events: Seq<AdminEvent>)
    requires
        admin_run(trace, events),
        trace[0].wf(),
        trace[0].activity@.len() <= MAX_ACTIVITY,
    ensures
        forall|i: int|
            0 <= i < trace.len() ==> (#[trigger] trace[i]).wf() && trace[i].activity@.len() <= MAX_ACTIVITY,
    decreases events.len(),
{
    if events.len() > 0 {
        let tr = trace.drop_last();
        let e = events.drop_last();
        assert forall|i: int, j: int| 0 <= i < e.len() && j == i + 1 implies #[trigger] AdminLiveState::step(
            tr[i],
            e[i],
            tr[j],
        ) by {
            assert(tr[i] == trace[i] && tr[j] == trace[j] && e[i] == events[i]);
            assert(AdminLiveState::step(trace[i], events[i], trace[j]));
        }
        law_admin_run(tr, e);
        let n = e.len() as int;
        let pre = trace[n];
        let post = trace[n + 1];
        assert(AdminLiveState::step(pre, events[n], post));
        assert(tr[n] == pre);
        let a = pre.activity@;
        match events[n] {
            AdminEvent::Comment { id, .. } => {
                lemma_first_where_range(a, comment_row_pred(id));
            },
            AdminEvent::Reaction { post_slug, .. } => {
                lemma_first_where_range(a, reaction_row_pred(post_slug@));
            },
            AdminEvent::CommentRemoved { id } => {
                law_removal_keeps_others(a, id);
            },
        }
        assert(post.activity@.len() <= MAX_ACTIVITY);
        assert forall|i: int| 0 <= i < trace.len() implies (#[trigger] trace[i]).wf() && trace[i].activity@.len()
            <= MAX_ACTIVITY by {
            if i <= n {
                assert(trace[i] == tr[i]);
            }
        }
    }
}

/// No row of `s` is the row of comment `id`.
pub open spec fn no_comment_row(s: Seq<ActivityItem>, id: i64) -> bool {
    forall|i: int| 0 <= i < s.len() ==> !is_comment_row(#[trigger] s[i], id)
}

proof fn lemma_without_comment_keeps_gone(s: Seq<ActivityItem>, other: i64, id: i64)
    requires
        no_comment_row(s, id),
    ensures
        no_comment_row(without_comment(s, other), id),
    decreases s.len(),
{
    if s.len() > 0 {
        let d = s.drop_last();
        assert forall|i: int| 0 <= i < d.len() implies !is_comment_row(#[trigger] d[i], id) by {
            assert(d[i] == s[i]);
        }
        lemma_without_comment_keeps_gone(d, other, id);
        let w = without_comment(d, other);
        assert(s.last() == s[s.len() - 1]);
        assert forall|i: int| 0 <= i < w.push(s.last()).len() implies !is_comment_row(#[trigger] w.push(s.last())[i], id) by {
            if i < w.len() {
                assert(w.push(s.last())[i] == w[i]);
            }
        }
    }
}

proof fn lemma_keep_last_keeps_gone(s: Seq<ActivityItem>, n: nat, id: i64)
    requires
        no_comment_row(s, id),
    ensures
        no_comment_row(keep_last(s, n), id),
{
    let k = keep_last(s, n);
    assert forall|i: int| 0 <= i < k.len() implies !is_comment_row(#[trigger] k[i], id) by {
        if s.len() > n {
            assert(k[i] == s[i + s.len() - n]);
        }
    }
}

proof fn lemma_min_witness(s: Seq<ActivityItem>, p: spec_fn(ActivityItem) -> bool, k: int)
    requires
        0 <= k < s.len(),
        p(s[k]),
    ensures
        exists|i: int| 0 <= i < s.len() && p(#[trigger] s[i]) && forall|j: int| 0 <= j < i ==> !p(#[trigger] s[j]),
    decreases k,
{
    if exists|j: int| 0 <= j < k && p(#[trigger] s[j]) {
        let j = choose|j: int| 0 <= j < k && p(#[trigger] s[j]);
        lemma_min_witness(s, p, j);
    } else {
        assert(p(s[k]) && forall|j: int| 0 <= j < k ==> !p(#[trigger] s[j]));
    }
}

/// What `first_where` finds is an index of `s` whose item satisfies `p`.
proof fn lemma_first_where_range(s: Seq<ActivityItem>, p: spec_fn(ActivityItem) -> bool)
    ensures
        first_where(s, p) matches Some(i) ==> 0 <= i < s.len() && p(s[i]),
{
    if exists|k: int| 0 <= k < s.len() && p(#[trigger] s[k]) {
        let k = choose|k: int| 0 <= k < s.len() && p(#[trigger] s[k]);
        lemma_min_witness(s, p, k);
    }
}

/// An event that is not about comment `id` adds no row of it.
proof fn lemma_step_keeps_gone(pre: AdminLiveState, event: AdminEvent, post: AdminLiveState, id: i64)
    requires
        AdminLiveState::step(pre, event, post),
        no_comment_row(pre.activity@, id),
        !(event is Comment && event->Comment_id == id),
    ensures
        no_comment_row(post.activity@, id),
{
    let a = pre.activity@;
    match event {
        AdminEvent::Comment { id: cid, post_title, post_slug, display_name, status } => {
            let kind = ActivityKind::Comment { id: cid, who: display_name, status };
            lemma_first_where_range(a, comment_row_pred(cid));
            match first_where(a, comment_row_pred(cid)) {
                Some(i) => {
                    let b = post.activity@;
                    assert forall|k: int| 0 <= k < b.len() implies !is_comment_row(#[trigger] b[k], id) by {
                        if k != i {
                            assert(b[k] == a[k]);
                        }
                    }
                },
                None => {
                    let item = ActivityItem { key: post.next_key, post_title, post_slug, kind };
                    let p = a.push(item);
                    assert forall|k: int| 0 <= k < p.len() implies !is_comment_row(#[trigger] p[k], id) by {
                        if k < a.len() {
                            assert(p[k] == a[k]);
                        }
                    }
                    lemma_keep_last_keeps_gone(p, MAX_ACTIVITY as nat, id);
                },
            }
        },
        AdminEvent::Reaction { post_slug, post_title, total } => {
            let kind = ActivityKind::Reaction { total };
            lemma_first_where_range(a, reaction_row_pred(post_slug@));
            match first_where(a, reaction_row_pred(post_slug@)) {
                Some(i) => {
                    let b = post.activity@;
                    assert forall|k: int| 0 <= k < b.len() implies !is_comment_row(#[trigger] b[k], id) by {
                        if k != i {
                            assert(b[k] == a[k]);
                        }
                    }
                },
                None => {
                    let item = ActivityItem { key: post.next_key, post_title, post_slug, kind };
                    let p = a.push(item);
                    assert forall|k: int| 0 <= k < p.len() implies !is_comment_row(#[trigger] p[k], id) by {
                        if k < a.len() {
                            assert(p[k] == a[k]);
                        }
                    }
                    lemma_keep_last_keeps_gone(p, MAX_ACTIVITY as nat, id);
                },
            }
        },
        AdminEvent::CommentRemoved { id: rid } => {
            lemma_without_comment_keeps_gone(a, rid, id);
        },
    }
}

proof fn lemma_gone_from(trace: Seq<AdminLiveState>, events: Seq<AdminEvent>, p: int, id: i64, q: int)
    requires
        admin_run(trace, events),
        0 <= p < events.len(),
        events[p] is CommentRemoved && events[p]->CommentRemoved_id == id,
        forall|r: int| p < r < events.len() ==> !((#[trigger] events[r]) is Comment && events[r]->Comment_id == id),
        p + 1 <= q <= events.len(),
    ensures
        no_comment_row(trace[q].activity@, id),
    decreases q,
{
    assert(AdminLiveState::step(trace[q - 1], events[q - 1], trace[q]));
    if q == p + 1 {
        law_removed_comment_gone(trace[p].activity@, id);
    } else {
        lemma_gone_from(trace, events, p, id, q - 1);
        assert(!(events[q - 1] is Comment && events[q - 1]->Comment_id == id));
        lemma_step_keeps_gone(trace[q - 1], events[q - 1], trace[q], id);
    }
}

/// Once a comment is removed, the feed shows no row of it until a later event
/// about that comment arrives.
pub proof fn law_removed_comment_stays_gone(trace: Seq<AdminLiveState>, events: Seq<AdminEvent>, p: int, id: i64)
    requires
        admin_run(trace, events),
        0 <= p < events.len(),
        events[p] is CommentRemoved && events[p]->CommentRemoved_id == id,
        forall|r: int| p < r < events.len() ==> !((#[trigger] events[r]) is Comment && events[r]->Comment_id == id),
    ensures
        no_comment_row(trace.last().activity@, id),
{
    lemma_gone_from(trace, events, p, id, events.len() as int);
}

} // verus!
