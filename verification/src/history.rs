//! Watch history: a bounded, deduplicated, most-recent-first log.
//!
//! `add` removes any entry with the same video id, puts the new entry at the
//! front, and trims the log to the configured maximum. The laws at the end
//! state the bounding and deduplication behaviour of whole runs of adds.

use vstd::prelude::*;
use vstd::seq_lib::*;
use vstd::string::StringExecFns;

use crate::decode::{decode_history, spec_decode_history};
use crate::json::{json_of, parse_json, JsonValue};
use crate::seqs::{lemma_filter_all, lemma_filter_prefix};
use crate::types::{
    history_models, take_up_to, HistoryEntry, HistoryEntryModel, Video, VideoModel,
};

verus! {

/// Keeping every entry whose video id differs from `idv`.
pub open spec fn keeps_id(idv: Seq<char>) -> spec_fn(HistoryEntryModel) -> bool {
    |e: HistoryEntryModel| e.video.id != idv
}

/// What one `add` does to the entry list: any entry with the same id is
/// removed, the new entry goes to the front, and the list is trimmed to
/// `max` entries.
pub open spec fn add_model(
    entries: Seq<HistoryEntryModel>,
    v: VideoModel,
    t: int,
    max: nat,
) -> Seq<HistoryEntryModel> {
    take_up_to(
        seq![HistoryEntryModel { video: v, timestamp: t }] + entries.filter(keeps_id(v.id)),
        max,
    )
}

/// No two entries share a video id.
pub open spec fn distinct_ids(s: Seq<HistoryEntryModel>) -> bool {
    forall|i: int, j: int| 0 <= i < j < s.len() ==> s[i].video.id != s[j].video.id
}

/// Some entry carries the id `idv`.
pub open spec fn has_id(s: Seq<HistoryEntryModel>, idv: Seq<char>) -> bool {
    exists|i: int| 0 <= i < s.len() && s[i].video.id == idv
}

/// How many entries carry the id `idv`.
pub open spec fn count_id(s: Seq<HistoryEntryModel>, idv: Seq<char>) -> nat
    decreases s.len(),
{
    if s.len() == 0 {
        0
    } else {
        (if s[0].video.id == idv {
            1nat
        } else {
            0nat
        }) + count_id(s.drop_first(), idv)
    }
}

/// What loading store content yields: its history entries, or an empty
/// history when there is no content or it does not decode.
pub open spec fn loaded_model(j: Option<JsonValue>) -> Seq<HistoryEntryModel> {
    match j {
        None => Seq::<HistoryEntryModel>::empty(),
        Some(v) => match spec_decode_history(v) {
            Some(entries) => history_models(entries),
            None => Seq::<HistoryEntryModel>::empty(),
        },
    }
}

/// The watch history manager.
pub struct History {
    path: String,
    max_entries: usize,
    entries: Vec<HistoryEntry>,
}

impl History {
    /// The stored entries, most recent first.
    pub closed spec fn entries_view(&self) -> Seq<HistoryEntryModel> {
        history_models(self.entries@)
    }

    /// The configured bound on the number of entries.
    pub closed spec fn max_view(&self) -> nat {
        self.max_entries as nat
    }

    /// The path of the backing store.
    pub closed spec fn path_view(&self) -> Seq<char> {
        self.path@
    }

    /// Entries are unique by video id and bounded by the maximum.
    pub open spec fn wf(&self) -> bool {
        distinct_ids(self.entries_view()) && self.entries_view().len() <= self.max_view()
    }

    /// A fresh, empty history over the given backing path.
    pub fn new(path: &str, max_entries: usize) -> (r: Self)
        ensures
            r.entries_view() == Seq::<HistoryEntryModel>::empty(),
            r.max_view() == max_entries as nat,
            r.path_view() == path@,
            r.wf(),
    {
        let r = History { path: String::from_str(path), max_entries, entries: Vec::new() };
        proof {
            assert(r.entries_view() =~= Seq::<HistoryEntryModel>::empty());
        }
        r
    }

    /// All entries, most recent first. Reads memory only.
    pub fn get_all(&self) -> (r: &Vec<HistoryEntry>)
        ensures
            history_models(r@) == self.entries_view(),
    {
        &self.entries
    }

    /// Replace the in-memory entries with what the store content holds.
    /// A missing store (`None`) and a corrupt store both load as an empty
    /// history; neither is an error.
    pub fn load(&mut self, content: Option<&str>)
        ensures
            final (self).entries_view() == loaded_model(
                match content {
                    Some(c) => json_of(c@),
                    None => None,
                },
            ),
            final (self).max_view() == old(self).max_view(),
            final (self).path_view() == old(self).path_view(),
    {
        let text = match content {
            Some(c) => c,
            None => {
                self.clear();
                return ;
            },
        };
        let tree = match parse_json(text) {
            Some(tree) => tree,
            None => {
                self.clear();
                return ;
            },
        };
        match decode_history(&tree) {
            Some(entries) => {
                self.entries = entries;
            },
            None => {
                self.clear();
            },
        }
    }

    /// Replace the in-memory entries, as loading the backing store does.
    pub fn set_entries(&mut self, entries: Vec<HistoryEntry>)
        ensures
            final (self).entries_view() == history_models(entries@),
            final (self).max_view() == old(self).max_view(),
            final (self).path_view() == old(self).path_view(),
    {
        self.entries = entries;
    }

    /// Forget all entries. The caller removes the backing store.
    pub fn clear(&mut self)
        ensures
            final (self).entries_view() == Seq::<HistoryEntryModel>::empty(),
            final (self).max_view() == old(self).max_view(),
            final (self).path_view() == old(self).path_view(),
            final (self).wf(),
    {
        self.entries.clear();
        proof {
            assert(final (self).entries_view() =~= Seq::<HistoryEntryModel>::empty());
        }
    }

    /// Record a watch: drop any entry with the same id, put the new entry in
    /// front, and trim to the maximum. The caller persists the new list
    /// before relying on it.
    #[verifier::loop_isolation(false)]
    pub fn add(&mut self, video: &Video, now: i64)
        ensures
            final (self).entries_view() == add_model(
                old(self).entries_view(),
                video@,
                now as int,
                old(self).max_view(),
            ),
            final (self).max_view() == old(self).max_view(),
            final (self).path_view() == old(self).path_view(),
            old(self).wf() ==> final (self).wf(),
    {
        broadcast use group_filter_ensures;

        let ghost pred = keeps_id(video@.id);
        let ghost old_models = self.entries_view();
        let new_entry = HistoryEntry { video: video.duplicate(), timestamp: now };
        let ghost new_model = new_entry@;
        let mut out: Vec<HistoryEntry> = Vec::new();
        out.push(new_entry);
        let n = self.entries.len();
        let mut i: usize = 0;
        proof {
            assert(history_models(self.entries@.take(0)) =~= Seq::<HistoryEntryModel>::empty());
            reveal(Seq::filter);
            assert(history_models(out@) =~= seq![new_model] + history_models(
                self.entries@.take(0),
            ).filter(pred));
        }
        while i < n
            invariant
                0 <= i <= n,
                n == self.entries@.len(),
                history_models(out@) == seq![new_model] + history_models(
                    self.entries@.take(i as int),
                ).filter(pred),
            decreases n - i,
        {
            let ghost pre_models = history_models(self.entries@.take(i as int));
            let ghost cur = self.entries@[i as int]@;
            let keep = !(self.entries[i].video.id == video.id);
            proof {
                reveal(Seq::filter);
                assert(history_models(self.entries@.take(i + 1)) =~= pre_models.push(cur));
                assert(pre_models.push(cur).drop_last() =~= pre_models);
                assert(keep == pred(cur));
                if keep {
                    assert(pre_models.push(cur).filter(pred) == pre_models.filter(pred).push(cur));
                } else {
                    assert(pre_models.push(cur).filter(pred) == pre_models.filter(pred));
                }
            }
            if keep {
                let e = self.entries[i].duplicate();
                proof {
                    assert(history_models(out@.push(e)) =~= history_models(out@).push(cur));
                    assert(seq![new_model] + pre_models.filter(pred).push(cur) =~= (seq![new_model]
                        + pre_models.filter(pred)).push(cur));
                }
                out.push(e);
            }
            i += 1;
        }
        proof {
            assert(self.entries@.take(n as int) =~= self.entries@);
        }
        self.entries = out;
        self.entries.truncate(self.max_entries);
        proof {
            let full = seq![new_model] + old_models.filter(pred);
            if self.max_entries < full.len() {
                assert(history_models(out@.subrange(0, self.max_entries as int)) =~= history_models(
                    out@,
                ).subrange(0, self.max_entries as int));
                assert(full.take(self.max_entries as int) =~= history_models(out@).subrange(
                    0,
                    self.max_entries as int,
                ));
            }
            assert(final (self).entries_view() == add_model(
                old_models,
                video@,
                now as int,
                old(self).max_view(),
            ));
            if old(self).wf() {
                lemma_filter_keeps_distinct(old_models, pred);
                let result = final (self).entries_view();
                assert forall|a: int, b: int| 0 <= a < b < result.len() implies result[a].video.id
                    != result[b].video.id by {
                    assert(result[b] == full[b]);
                    assert(result[b] == old_models.filter(pred)[b - 1]);
                    if a > 0 {
                        assert(result[a] == old_models.filter(pred)[a - 1]);
                    } else {
                        assert(result[0].video.id == video@.id);
                        assert(pred(old_models.filter(pred)[b - 1]));
                    }
                }
            }
        }
    }
}

/// Filtering a list with distinct ids keeps the ids distinct, and every id
/// it keeps was there before.
pub proof fn lemma_filter_keeps_distinct(
    s: Seq<HistoryEntryModel>,
    pred: spec_fn(HistoryEntryModel) -> bool,
)
    requires
        distinct_ids(s),
    ensures
        distinct_ids(s.filter(pred)),
        forall|x: HistoryEntryModel| #[trigger] s.filter(pred).contains(x) ==> s.contains(x),
    decreases s.len(),
{
    reveal(Seq::filter);
    if s.len() == 0 {
    } else {
        let sub = s.drop_last();
        assert(distinct_ids(sub));
        lemma_filter_keeps_distinct(sub, pred);
        let f = sub.filter(pred);
        if pred(s.last()) {
            assert(s.filter(pred) == f.push(s.last()));
            assert forall|a: int, b: int|
                0 <= a < b < f.push(s.last()).len() implies f.push(s.last())[a].video.id != f.push(
                s.last(),
            )[b].video.id by {
                if b < f.len() {
                    assert(distinct_ids(f));
                } else {
                    assert(f.contains(f[a]));
                    assert(sub.contains(f[a]));
                    let k = choose|k: int| 0 <= k < sub.len() && sub[k] == f[a];
                    assert(s[k] == sub[k]);
                    assert(s[k].video.id != s[s.len() - 1].video.id);
                }
            }
            assert forall|x: HistoryEntryModel| #[trigger]
                s.filter(pred).contains(x) implies s.contains(x) by {
                if f.contains(x) {
                    assert(sub.contains(x));
                    let k = choose|k: int| 0 <= k < sub.len() && sub[k] == x;
                    assert(s[k] == x);
                } else {
                    assert(x == s.last());
                }
            }
        } else {
            assert(s.filter(pred) == f);
            assert forall|x: HistoryEntryModel| #[trigger]
                s.filter(pred).contains(x) implies s.contains(x) by {
                assert(sub.contains(x));
                let k = choose|k: int| 0 <= k < sub.len() && sub[k] == x;
                assert(s[k] == x);
            }
        }
    }
}

/// No entry carries `idv` when no element does.
proof fn lemma_count_zero(s: Seq<HistoryEntryModel>, idv: Seq<char>)
    requires
        forall|i: int| 0 <= i < s.len() ==> s[i].video.id != idv,
    ensures
        count_id(s, idv) == 0,
    decreases s.len(),
{
    if s.len() > 0 {
        lemma_count_zero(s.drop_first(), idv);
    }
}

/// Adding the same video id twice leaves exactly one entry for that id: the
/// second add's entry, at the front, with the second add's timestamp.
pub proof fn lemma_history_dedup(
    entries: Seq<HistoryEntryModel>,
    v1: VideoModel,
    t1: int,
    v2: VideoModel,
    t2: int,
    max: nat,
)
    requires
        v1.id == v2.id,
        max >= 1,
    ensures
        ({
            let s = add_model(add_model(entries, v1, t1, max), v2, t2, max);
            &&& s.len() >= 1
            &&& s[0] == HistoryEntryModel { video: v2, timestamp: t2 }
            &&& count_id(s, v2.id) == 1
        }),
{
    broadcast use group_filter_ensures;

    let s1 = add_model(entries, v1, t1, max);
    let pred = keeps_id(v2.id);
    let f = s1.filter(pred);
    let e2 = HistoryEntryModel { video: v2, timestamp: t2 };
    let full = seq![e2] + f;
    let s = add_model(s1, v2, t2, max);
    assert(s[0] == e2);
    assert forall|i: int| 0 <= i < s.drop_first().len() implies s.drop_first()[i].video.id
        != v2.id by {
        assert(s.drop_first()[i] == full[i + 1]);
        assert(full[i + 1] == f[i]);
        assert(pred(f[i]));
    }
    lemma_count_zero(s.drop_first(), v2.id);
}

/// One `add` folded after another.
pub open spec fn fold_adds(
    entries: Seq<HistoryEntryModel>,
    adds: Seq<(VideoModel, int)>,
    max: nat,
) -> Seq<HistoryEntryModel>
    decreases adds.len(),
{
    if adds.len() == 0 {
        entries
    } else {
        fold_adds(add_model(entries, adds[0].0, adds[0].1, max), adds.drop_first(), max)
    }
}

proof fn lemma_fold_snoc(
    entries: Seq<HistoryEntryModel>,
    adds: Seq<(VideoModel, int)>,
    a: (VideoModel, int),
    max: nat,
)
    ensures
        fold_adds(entries, adds.push(a), max) == add_model(
            fold_adds(entries, adds, max),
            a.0,
            a.1,
            max,
        ),
    decreases adds.len(),
{
    if adds.len() == 0 {
        assert(adds.push(a).drop_first() =~= adds);
        assert(adds.push(a)[0] == a);
        assert(fold_adds(add_model(entries, a.0, a.1, max), adds, max) == add_model(
            entries,
            a.0,
            a.1,
            max,
        ));
        assert(fold_adds(entries, adds, max) == entries);
    } else {
        let e2 = add_model(entries, adds[0].0, adds[0].1, max);
        assert(adds.push(a)[0] == adds[0]);
        assert(adds.push(a).drop_first() =~= adds.drop_first().push(a));
        lemma_fold_snoc(e2, adds.drop_first(), a, max);
        assert(fold_adds(entries, adds.push(a), max) == fold_adds(
            e2,
            adds.drop_first().push(a),
            max,
        ));
        assert(fold_adds(entries, adds, max) == fold_adds(e2, adds.drop_first(), max));
    }
}

/// After a run of adds with pairwise-distinct video ids, the history holds
/// the most recently added videos, most recent first, and never more than
/// `max` entries; a run at least `max` long fills it to exactly `max`.
pub proof fn lemma_history_bounding(
    entries: Seq<HistoryEntryModel>,
    adds: Seq<(VideoModel, int)>,
    max: nat,
)
    requires
        forall|i: int, j: int| 0 <= i < j < adds.len() ==> adds[i].0.id != adds[j].0.id,
    ensures
        adds.len() >= 1 ==> fold_adds(entries, adds, max).len() <= max,
        adds.len() < max ==> fold_adds(entries, adds, max).len() >= adds.len(),
        forall|i: int|
            0 <= i < adds.len() && i < max ==> fold_adds(entries, adds, max)[i] == (
            HistoryEntryModel {
                video: adds[adds.len() - 1 - i].0,
                timestamp: adds[adds.len() - 1 - i].1,
            }),
        adds.len() >= max && adds.len() >= 1 ==> fold_adds(entries, adds, max).len() == max,
    decreases adds.len(),
{
    broadcast use group_filter_ensures;

    if adds.len() == 0 {
        return ;
    }
    let pre = adds.drop_last();
    let a = adds.last();
    lemma_history_bounding(entries, pre, max);
    assert(pre.push(a) =~= adds);
    lemma_fold_snoc(entries, pre, a, max);
    let sp = fold_adds(entries, pre, max);
    let s = fold_adds(entries, adds, max);
    let e_a = HistoryEntryModel { video: a.0, timestamp: a.1 };
    let pred = keeps_id(a.0.id);
    let f = sp.filter(pred);
    let full = seq![e_a] + f;
    assert(s == take_up_to(full, max));
    if max == 0 {
        return ;
    }
    // the leading entries of `sp` are the earlier adds, whose ids differ
    // from the id just added
    let p: int = if pre.len() < max as int {
        if pre.len() < sp.len() {
            pre.len() as int
        } else {
            sp.len() as int
        }
    } else {
        max as int
    };
    assert(p <= sp.len());
    assert forall|j: int| 0 <= j < p implies pred(sp[j]) by {
        assert(sp[j] == HistoryEntryModel {
            video: pre[pre.len() - 1 - j].0,
            timestamp: pre[pre.len() - 1 - j].1,
        });
        assert(adds[pre.len() - 1 - j].0.id != adds[adds.len() - 1].0.id);
    }
    lemma_filter_prefix(sp, pred, p);
    assert(s[0] == e_a);
    assert forall|i: int|
        1 <= i < adds.len() && i < max implies s[i] == HistoryEntryModel {
        video: adds[adds.len() - 1 - i].0,
        timestamp: adds[adds.len() - 1 - i].1,
    } by {
        assert(i - 1 < p);
        assert(s[i] == full[i]);
        assert(full[i] == f[i - 1]);
        assert(f[i - 1] == sp[i - 1]);
        assert(sp[i - 1] == HistoryEntryModel {
            video: pre[pre.len() - 1 - (i - 1)].0,
            timestamp: pre[pre.len() - 1 - (i - 1)].1,
        });
    }
    if adds.len() >= max {
        assert(full.len() >= 1 + p);
        assert(full.len() >= max);
        assert(s.len() == max);
    }
}

} // verus!
